use shopping_apis::mitre10::auth::{
    authorize_url, authorize_url_with, classify, code_from, earned_code, navigation_headers,
    password_outcome, redacted, refresh_form, site_headers, token_outcome, urlencode, Pkce,
};
use shopping_apis::json::Json;
use shopping_apis::mitre10::catalogue::{apply, browsable, link_ids, split, tree};
use shopping_apis::mitre10::client::{after_authed, encode, no_such, occ_outcome, pad, postcode_group, price_batches, Renewal};
use shopping_apis::mitre10::detail::product_detail;
use shopping_apis::mitre10::listing::{product, results_block, rows};
use shopping_apis::mitre10::records;
use shopping_apis::mitre10::domain::{
    cart_handle, facet_order, line_order, CategoryNode, Fulfilment, StockLevel,
};
use shopping_apis::mitre10::endpoints::{Algolia, Endpoints};
use shopping_apis::mitre10::error::Error;
use shopping_apis::mitre10::http::{client_spec, client_spec_for, profile, EMULATION};
use shopping_apis::mitre10::search::{Availability, Query, Sort, Suggest};
use shopping_apis::mitre10::session::Session;
use shopping_apis::mitre10::wire::{
    address, algolia_from, any_str, bool_of, cart_notice, category, codes, config_value, customer,
    entities, occ_error, promotions, stock, str_of, suggestions, OccError, OccErrors,
};
use shopping_apis::net_kit::jwt::now_ms;

fn header<'a>(headers: &'a [(String, String)], name: &str) -> Option<&'a str> {
    headers
        .iter()
        .find(|(k, _)| k.eq_ignore_ascii_case(name))
        .map(|(_, v)| v.as_str())
}

fn node(code: &str, name: &str, children: Vec<CategoryNode>) -> CategoryNode {
    CategoryNode { code: code.into(), name: name.into(), url: None, children }
}

/// A JSON object, its members in name order as a decoder hands them over.
fn obj(members: Vec<(&str, Json)>) -> Json {
    let mut members: Vec<(String, Json)> =
        members.into_iter().map(|(k, v)| (k.to_string(), v)).collect();
    members.sort_by(|a, b| a.0.cmp(&b.0));
    Json::Object(members)
}

fn s(text: &str) -> Json {
    Json::Str(text.into())
}

fn n(text: &str) -> Json {
    Json::Number { text: text.into(), zero: text.parse::<f64>().map(|x| x == 0.0).unwrap_or(false) }
}

fn arr(items: Vec<Json>) -> Json {
    Json::Array(items)
}

/// A navigation node with one link entry.
fn nav(uid: &str, title: Option<&str>, item: &str, children: Vec<Json>) -> Json {
    let mut members = vec![
        ("uid", s(uid)),
        ("entries", arr(vec![obj(vec![("itemId", s(item))])])),
        ("children", arr(children)),
    ];
    if let Some(t) = title {
        members.push(("title", s(t)));
    }
    obj(members)
}

/// The shape the site sends: the component buried in content slots.
fn page() -> Json {
    obj(vec![(
        "contentSlots",
        obj(vec![(
            "contentSlot",
            arr(vec![obj(vec![(
                "components",
                obj(vec![(
                    "component",
                    arr(vec![obj(vec![
                        ("uid", s("Mitre10CategoryNavComponent")),
                        ("typeCode", s("CategoryNavigationComponent")),
                        (
                            "navigationNode",
                            obj(vec![
                                ("uid", s("Mitre10CategoryNavNode")),
                                (
                                    "children",
                                    arr(vec![nav(
                                        "NN_N2_Garden",
                                        Some("Garden"),
                                        "LN_N2_Garden",
                                        vec![nav(
                                            "NN_RD2002_Garden_Equipment",
                                            None,
                                            "LN_RD2002_Garden_Equipment",
                                            vec![nav(
                                                "NN_RS2158_Rugs_Mats",
                                                None,
                                                "LN_RS2158_Rugs_Mats",
                                                vec![],
                                            )],
                                        )],
                                    )]),
                                ),
                            ]),
                        ),
                    ])]),
                )]),
            )])]),
        )]),
    )])
}

// ---- auth ----

#[test]
fn a_verifier_produces_the_challenge_rfc_7636_specifies() {
    let pkce = Pkce::from_verifier("dBjftJeZ4CVP-mB92K27uhbUJU1p1r_wW1gFWFOEjXk".into());
    assert_eq!(pkce.challenge, "E9Melhoa2OwvFrEMTJguCHaoeK1t8URWbuGJSstw-cM");
}

#[test]
fn two_generated_verifiers_differ() {
    let a = Pkce::generate();
    let b = Pkce::generate();
    assert_ne!(a.verifier, b.verifier);
    assert_ne!(a.challenge, b.challenge);
    assert!(a.verifier.len() >= 43, "RFC 7636 wants 43 characters or more");
}

#[test]
fn the_code_is_taken_out_of_the_redirect_wherever_it_sits() {
    assert_eq!(
        code_from("https://www.mitre10.co.nz?code=abc123&state=xyz").as_deref(),
        Some("abc123")
    );
    assert_eq!(
        code_from("https://www.mitre10.co.nz?state=xyz&code=abc123").as_deref(),
        Some("abc123")
    );
    assert_eq!(code_from("https://www.mitre10.co.nz?error=access_denied"), None);
    assert_eq!(code_from("https://www.mitre10.co.nz?code="), None);
    assert_eq!(code_from("https://www.mitre10.co.nz"), None);
}

#[test]
fn the_authorize_url_carries_pkce_and_the_continue_the_storefront_sends() {
    let url = authorize_url(&Endpoints::defaults(), &Pkce::from_verifier("v".into()));
    assert!(url.contains("response_type=code"), "{url}");
    assert!(url.contains("client_id=mobile_android_public"), "{url}");
    assert!(url.contains("code_challenge_method=S256"), "{url}");
    assert!(url.ends_with("&continue"), "{url}");
    assert!(
        url.contains("redirect_uri=https%3A%2F%2Fwww.mitre10.co.nz"),
        "the redirect must be encoded, not raw: {url}"
    );
}

#[test]
fn an_authorize_url_with_a_given_state_is_exactly_the_one_the_app_builds() {
    let pkce = Pkce { verifier: "v".into(), challenge: "CH".into() };
    let url = authorize_url_with(&Endpoints::defaults(), &pkce, "st");
    assert_eq!(
        url,
        "https://ccapi.mitre10.co.nz/authorizationserver/oauth/authorize?\
         response_type=code&client_id=mobile_android_public&state=st\
         &redirect_uri=https%3A%2F%2Fwww.mitre10.co.nz&scope=&code_challenge=CH\
         &code_challenge_method=S256&continue"
    );
}

#[test]
fn an_invalid_grant_is_a_lapsed_login_rather_than_a_mystery() {
    assert!(matches!(
        classify(r#"{"error":"invalid_grant","error_description":"code_verifier"}"#),
        Error::LoginLapsed
    ));
    assert!(matches!(classify(r#"{"error":"invalid_client"}"#), Error::Shape(_)));
}

#[test]
fn a_token_answer_is_only_refused_off_a_success_status() {
    assert!(token_outcome(200, "{}").is_ok());
    assert!(matches!(
        token_outcome(400, r#"{"error":"invalid_grant"}"#),
        Err(Error::LoginLapsed)
    ));
}

#[test]
fn a_trace_never_carries_the_code_or_the_challenge() {
    let line = redacted(
        "https://ccapi.mitre10.co.nz/authorizationserver/oauth/authorize?\
         response_type=code&code_challenge=SECRET&state=abc",
    );
    assert!(!line.contains("SECRET"), "{line}");
    assert!(line.contains("code_challenge=<redacted>"), "{line}");
    assert!(line.contains("state=abc"), "non-secrets survive: {line}");

    let landed = redacted("https://www.mitre10.co.nz?code=SECRET&state=abc");
    assert!(!landed.contains("SECRET"), "{landed}");
}

#[test]
fn the_priming_call_asks_for_html_because_asking_for_json_breaks_the_session() {
    let nav = navigation_headers(&Endpoints::defaults(), None);
    let accept = header(&nav, "accept").expect("set");
    assert!(accept.starts_with("text/html"), "{accept}");
    assert!(!accept.contains("application/json"), "{accept}");
}

#[test]
fn a_navigation_is_not_dressed_up_as_an_xhr() {
    let nav = navigation_headers(&Endpoints::defaults(), None);
    for (name, want) in [
        ("sec-fetch-dest", "document"),
        ("sec-fetch-mode", "navigate"),
        ("sec-fetch-site", "same-site"),
    ] {
        assert_eq!(header(&nav, name).expect(name), want);
    }
}

#[test]
fn only_the_form_post_carries_an_origin() {
    let site = Endpoints::defaults().site.clone();
    assert!(header(&navigation_headers(&Endpoints::defaults(), None), "origin").is_none());
    assert_eq!(
        header(&navigation_headers(&Endpoints::defaults(), Some(&site)), "origin").expect("set"),
        site
    );
}

#[test]
fn every_request_asks_for_json_because_occ_serves_xml_by_default() {
    let headers = site_headers(&Endpoints::defaults());
    let accept = header(&headers, "accept").expect("set");
    assert!(accept.contains("application/json"), "{accept}");
    assert!(accept.contains("text/plain"), "postcodegroupid answers a bare number: {accept}");
}

#[test]
fn the_fetch_metadata_describes_an_xhr_not_a_navigation() {
    let headers = site_headers(&Endpoints::defaults());
    assert_eq!(header(&headers, "sec-fetch-dest").expect("set"), "empty");
    assert_eq!(header(&headers, "sec-fetch-mode").expect("set"), "cors");
    assert_eq!(
        header(&headers, "sec-fetch-site").expect("set"),
        "same-site",
        "the API is a different host under the same registrable domain"
    );
}

#[test]
fn the_cors_headers_name_the_site_rather_than_the_api() {
    let headers = site_headers(&Endpoints::defaults());
    assert_eq!(header(&headers, "origin").expect("set"), "https://www.mitre10.co.nz");
    assert_eq!(header(&headers, "referer").expect("set"), "https://www.mitre10.co.nz/");
}

#[test]
fn a_refresh_form_names_the_grant_and_the_public_client() {
    let form = refresh_form("rt");
    assert_eq!(
        form,
        vec![
            ("grant_type".to_string(), "refresh_token".to_string()),
            ("refresh_token".to_string(), "rt".to_string()),
            ("client_id".to_string(), "mobile_android_public".to_string()),
        ]
    );
}

#[test]
fn a_form_value_is_encoded_byte_by_byte() {
    assert_eq!(urlencode("a b&c"), "a%20b%26c");
    assert_eq!(urlencode("Az09-._~"), "Az09-._~");
}

#[test]
fn a_password_post_answered_with_a_redirect_to_the_form_is_bad_credentials() {
    assert!(matches!(
        password_outcome(302, Some("https://x/login?error=true".into()), None),
        Err(Error::BadCredentials)
    ));
    assert!(password_outcome(302, Some("https://www.mitre10.co.nz/".into()), None).is_ok());
    assert!(matches!(
        password_outcome(429, None, Some("30".into())),
        Err(Error::RateLimited { retry_after: Some(30) })
    ));
}

// ---- catalogue ----

#[test]
fn a_uid_splits_into_a_code_and_a_name() {
    assert_eq!(
        split("LN_RD2002_Garden_Equipment"),
        Some(("RD2002".into(), "Garden Equipment".into()))
    );
    assert_eq!(
        split("NN_N1_Building_Hardware"),
        Some(("N1".into(), "Building Hardware".into()))
    );
    assert_eq!(split("DepartmentsCategoryLink"), None, "no code to take");
}

#[test]
fn the_tree_is_found_however_deep_the_cms_buried_it() {
    let tree = tree(&page()).expect("found");
    assert_eq!(tree.children.len(), 1);
    assert_eq!(tree.children[0].code, "N2");
    assert_eq!(tree.children[0].children[0].code, "RD2002");
    assert_eq!(tree.name, "Shop");
    assert_eq!(tree.url.as_deref(), Some("/shop"));
}

#[test]
fn a_name_is_derived_from_the_uid_when_the_node_has_no_title() {
    let tree = tree(&page()).expect("found");
    assert_eq!(tree.children[0].name, "Garden", "the node's own title wins");
    assert_eq!(
        tree.children[0].children[0].name, "Garden Equipment",
        "derived from the uid when there is no title"
    );
}

#[test]
fn resolving_components_replaces_derived_names_and_adds_urls() {
    let mut tree = tree(&page()).expect("found");
    apply(
        &mut tree,
        &obj(vec![(
            "component",
            arr(vec![
                obj(vec![
                    ("uid", s("LN_RD2002_Garden_Equipment")),
                    ("linkName", s("Garden Equipment")),
                    ("url", s("/shop/garden/garden-equipment")),
                ]),
                obj(vec![
                    ("uid", s("LN_RS2158_Rugs_Mats")),
                    ("linkName", s("Rugs & Mats")),
                    ("url", s("/shop/garden/garden-equipment/rugs-mats/c/RS2158")),
                ]),
            ]),
        )]),
    );
    let equipment = &tree.children[0].children[0];
    assert_eq!(equipment.url.as_deref(), Some("/shop/garden/garden-equipment"));
    assert_eq!(
        equipment.children[0].name, "Rugs & Mats",
        "the ampersand only survives the resolved name, not the uid"
    );
}

#[test]
fn a_later_resolution_of_a_code_wins_and_a_url_already_known_is_kept() {
    let mut tree = tree(&page()).expect("found");
    tree.children[0].url = Some("/garden".into());
    apply(
        &mut tree,
        &obj(vec![(
            "component",
            arr(vec![
                obj(vec![("uid", s("LN_N2_Garden")), ("linkName", s("Old")), ("url", s("/x"))]),
                obj(vec![("uid", s("LN_N2_Garden")), ("linkName", s("Garden & Outdoor"))]),
                obj(vec![("uid", s("cmsitem_00211010")), ("linkName", s("Deals"))]),
            ]),
        )]),
    );
    assert_eq!(tree.children[0].name, "Garden & Outdoor");
    assert_eq!(tree.children[0].url.as_deref(), Some("/garden"));
    assert_eq!(tree.children[0].children[0].name, "Garden Equipment", "unresolved stays");
}

#[test]
fn only_real_catalogue_categories_are_offered_for_browsing() {
    let tree = tree(&page()).expect("found");
    let codes: Vec<String> = browsable(&tree).into_iter().map(|(c, _, _)| c).collect();
    assert_eq!(codes, ["RD2002", "RS2158"]);
}

#[test]
fn a_browsable_node_carries_the_path_that_reaches_it() {
    let tree = tree(&page()).expect("found");
    let rugs = browsable(&tree)
        .into_iter()
        .find(|(code, _, _)| code == "RS2158")
        .expect("present");
    assert_eq!(rugs.2, ["Shop", "Garden", "Garden Equipment"]);
}

#[test]
fn every_coded_node_asks_for_its_link_component() {
    let tree = tree(&page()).expect("found");
    assert_eq!(
        link_ids(&tree),
        ["LN_N2_Garden", "LN_RD2002_Garden_Equipment", "LN_RS2158_Rugs_Mats"]
    );
}

#[test]
fn a_structural_wrapper_hands_its_children_up_rather_than_taking_them_down() {
    let page = obj(vec![
        ("typeCode", s("CategoryNavigationComponent")),
        (
            "navigationNode",
            obj(vec![(
                "children",
                arr(vec![obj(vec![
                    ("uid", s("Mitre10DepartmentNavNode")),
                    ("title", s("Departments")),
                    ("entries", arr(vec![obj(vec![("itemId", s("DepartmentsCategoryLink"))])])),
                    (
                        "children",
                        arr(vec![obj(vec![
                            ("uid", s("NN_N2_Garden")),
                            ("entries", arr(vec![obj(vec![("itemId", s("LN_N2_Garden"))])])),
                            (
                                "children",
                                arr(vec![obj(vec![
                                    ("uid", s("NN_RD2002_Garden_Equipment")),
                                    (
                                        "entries",
                                        arr(vec![obj(vec![(
                                            "itemId",
                                            s("LN_RD2002_Garden_Equipment"),
                                        )])]),
                                    ),
                                    ("children", arr(vec![])),
                                ])]),
                            ),
                        ])]),
                    ),
                ])]),
            )]),
        ),
    ]);
    let tree = tree(&page).expect("found");
    let codes: Vec<&str> = tree.children.iter().map(|c| c.code.as_str()).collect();
    assert_eq!(codes, ["N2"], "the wrapper is gone and its child stands in its place");
    assert_eq!(tree.children[0].children[0].code, "RD2002");
}

#[test]
fn a_cms_content_link_is_not_mistaken_for_a_category() {
    assert_eq!(split("cmsitem_00211010"), None);

    let page = obj(vec![
        ("typeCode", s("CategoryNavigationComponent")),
        (
            "navigationNode",
            obj(vec![(
                "children",
                arr(vec![
                    obj(vec![
                        ("uid", s("NN_Deals")),
                        ("title", s("Deals")),
                        ("entries", arr(vec![obj(vec![("itemId", s("cmsitem_00211010"))])])),
                        ("children", arr(vec![])),
                    ]),
                    obj(vec![
                        ("uid", s("NN_RD2002_Garden_Equipment")),
                        (
                            "entries",
                            arr(vec![obj(vec![("itemId", s("LN_RD2002_Garden_Equipment"))])]),
                        ),
                        ("children", arr(vec![])),
                    ]),
                ]),
            )]),
        ),
    ]);
    let tree = tree(&page).expect("found");
    let codes: Vec<&str> = tree.children.iter().map(|c| c.code.as_str()).collect();
    assert_eq!(codes, ["RD2002"]);
}

#[test]
fn a_page_without_the_component_is_none_rather_than_an_empty_tree() {
    assert!(tree(&obj(vec![("contentSlots", obj(vec![]))])).is_none());
}

// ---- client ----

#[test]
fn a_product_code_is_padded_for_the_batch_endpoint_only() {
    assert_eq!(pad("174969"), "000000000000174969");
    assert_eq!(pad("000000000000174969"), "000000000000174969");
    assert_eq!(pad("2035819"), "000000000002035819");
}

#[test]
fn padding_twice_is_padding_once() {
    assert_eq!(pad(&pad("42")), pad("42"));
    assert_eq!(pad("1234567890123456789"), "1234567890123456789");
}

#[test]
fn a_comma_survives_encoding_because_the_batch_endpoint_separates_on_it() {
    assert_eq!(encode("1,2,3"), "1,2,3");
    assert_eq!(encode("Ruatangata West"), "Ruatangata%20West");
}

#[test]
fn an_occ_answer_is_read_before_its_status() {
    let refusal = OccErrors {
        errors: vec![OccError {
            message: Some("Product is not available".into()),
            kind: Some("CartEntryError".into()),
        }],
    };
    match occ_outcome("addToCart", 400, "{}".into(), Some(refusal)) {
        Err(Error::Occ { operation, message }) => {
            assert_eq!(operation, "addToCart");
            assert_eq!(message, "Product is not available");
        }
        other => panic!("{other:?}"),
    }
    assert!(matches!(occ_outcome("x", 200, "  ".into(), None), Ok(None)));
    assert!(matches!(occ_outcome("x", 200, "7".into(), None), Ok(Some(t)) if t == "7"));
    assert!(matches!(occ_outcome("x", 401, "".into(), None), Err(Error::SessionExpired)));
    assert!(matches!(
        occ_outcome("x", 500, "boom".into(), None),
        Err(Error::Http { status: Some(500), .. })
    ));
}

// ---- domain ----

#[test]
fn a_category_codes_prefix_is_its_depth_in_the_index() {
    assert_eq!(CategoryNode::level_of("RD8002"), Some(0));
    assert_eq!(CategoryNode::level_of("RS2158"), Some(1));
    assert_eq!(CategoryNode::level_of("RF7336"), Some(2));
    assert_eq!(CategoryNode::level_of("RC37340"), Some(3));
}

#[test]
fn a_top_menu_entry_has_no_level_because_it_is_not_a_catalogue_category() {
    assert_eq!(CategoryNode::level_of("N2"), None);
    assert_eq!(CategoryNode::level_of(""), None);
}

#[test]
fn an_unrecognised_stock_word_is_carried_rather_than_guessed() {
    assert_eq!(StockLevel::parse("LOW_STOCK"), StockLevel::LowStock);
    assert_eq!(StockLevel::parse("lowStock"), StockLevel::LowStock);
    assert_eq!(StockLevel::parse("SOMETHING_NEW"), StockLevel::Unknown);
    assert!(!StockLevel::Unknown.is_available());
    assert!(StockLevel::LowStock.is_available());
}

#[test]
fn a_fulfilment_parses_from_what_people_type_and_renders_what_occ_takes() {
    assert_eq!(Fulfilment::parse("collect"), Some(Fulfilment::ClickToCollect));
    assert_eq!(Fulfilment::parse("Click and Collect"), Some(Fulfilment::ClickToCollect));
    assert_eq!(Fulfilment::parse("delivery"), Some(Fulfilment::HomeDelivery));
    assert_eq!(Fulfilment::parse("post"), None);
    assert_eq!(Fulfilment::ClickToCollect.code(), "clickToCollect");
}

#[test]
fn a_tree_walk_carries_the_path_that_reached_each_node() {
    let tree = node(
        "N2",
        "Garden",
        vec![node("RD2002", "Garden Equipment", vec![node("RS2158", "Rugs & Mats", vec![])])],
    );

    let seen: Vec<(String, String)> = tree
        .walk()
        .into_iter()
        .map(|(n, path)| (n.code.clone(), path.join(" > ")))
        .collect();
    assert_eq!(
        seen,
        vec![
            ("N2".into(), String::new()),
            ("RD2002".into(), "Garden".into()),
            ("RS2158".into(), "Garden > Garden Equipment".into()),
        ]
    );
    assert_eq!(tree.find("RS2158").map(|n| n.name.as_str()), Some("Rugs & Mats"));
    assert!(tree.find("RF9999").is_none());
}

// ---- endpoints ----

#[test]
fn a_catalogue_path_carries_the_basesite() {
    let e = Endpoints::defaults();
    assert_eq!(
        e.occ("/products/174969"),
        "https://ccapi.mitre10.co.nz/occ/v2/mitre10/products/174969"
    );
}

#[test]
fn the_authorization_server_sits_outside_the_basesite() {
    let e = Endpoints::defaults();
    assert_eq!(
        e.auth("/oauth/token"),
        "https://ccapi.mitre10.co.nz/authorizationserver/oauth/token"
    );
}

#[test]
fn an_overridden_origin_loses_its_trailing_slash() {
    let e = Endpoints::defaults().with_api("http://127.0.0.1:9999/");
    assert_eq!(e.occ("/products/1"), "http://127.0.0.1:9999/occ/v2/mitre10/products/1");
}

#[test]
fn queries_go_to_the_app_ids_own_dsn() {
    let e = Endpoints::defaults();
    let algolia = Algolia::new("ABCDEF1234", "not-a-real-key");
    assert!(e
        .queries(&algolia)
        .starts_with("https://abcdef1234-dsn.algolia.net/1/indexes/*/queries"));
    assert!(e.queries(&algolia).contains("not-a-real-key"));
}

#[test]
fn an_overridden_search_origin_wins_over_the_dsn() {
    let e = Endpoints::defaults().with_search("http://127.0.0.1:9999/");
    assert!(e
        .queries(&Algolia::new("ABCDEF1234", "not-a-real-key"))
        .starts_with("http://127.0.0.1:9999/1/indexes/*/queries"));
}

// ---- error ----

#[test]
fn an_expired_token_is_refreshable_and_a_lapsed_login_is_not() {
    assert!(Error::SessionExpired.is_lapsed());
    assert!(!Error::SessionExpired.needs_login());
    assert!(!Error::LoginLapsed.is_lapsed());
    assert!(Error::LoginLapsed.needs_login());
}

#[test]
fn a_rate_limit_is_recognised_by_its_status() {
    let limited = Error::RateLimited { retry_after: Some(30) };
    assert!(limited.is_rate_limited());
    assert!(matches!(
        Error::from_status(429, "").expect("classified"),
        Error::RateLimited { retry_after: None }
    ));
}

#[test]
fn only_an_http_refusal_carries_a_body() {
    assert_eq!(Error::Http { status: Some(500), body: "boom".into() }.body(), "boom");
    assert_eq!(Error::Cors.body(), "");
}

// ---- http ----

#[test]
fn a_profile_is_found_however_its_name_is_punctuated() {
    let profiles = ["Firefox139", "Chrome137"];
    assert_eq!(profile("firefox139", &profiles), Some("Firefox139"));
    assert_eq!(profile("Firefox_139", &profiles), Some("Firefox139"));
    assert_eq!(profile("FIREFOX-139", &profiles), Some("Firefox139"));
    assert_eq!(profile("netscape", &profiles), None);
}

// ---- search ----

#[test]
fn a_sort_name_becomes_a_replica_index_and_relevance_is_the_base() {
    assert_eq!(Sort::parse("relevance").index(), "retail_products_relevance");
    assert_eq!(Sort::parse("").index(), "retail_products_relevance");
    assert_eq!(
        Sort::parse("price-asc").index(),
        "retail_products_price_asc",
        "a bare word is a replica suffix"
    );
    assert_eq!(
        Sort::parse("retail_articles_relevance").index(),
        "retail_articles_relevance",
        "a full index name is passed through"
    );
}

#[test]
fn availability_becomes_an_or_clause() {
    let a = Availability { collect_from: Some("66".into()), deliver_to: Some("5".into()) };
    assert_eq!(
        a.clause().as_deref(),
        Some("(clickAndCollect:66 OR homeDelivery:5 OR expressDelivery:5)")
    );
    let none = Availability { collect_from: None, deliver_to: None };
    assert_eq!(none.clause(), None);
    assert_eq!(Availability::collect("7").clause().as_deref(), Some("(clickAndCollect:7)"));
}

// ---- session ----

fn with_refresh(token: &str) -> Session {
    Session { refresh_token: Some(token.into()), ..Session::default() }
}

#[test]
fn a_session_with_no_bearer_is_not_fresh_but_may_still_refresh() {
    let mut s = with_refresh("NotARealToken");
    assert!(!s.token_fresh());
    assert!(s.can_refresh());

    s.set_tokens("not.a.jwt".into(), None, Some(10_799));
    assert!(s.token_fresh(), "an unreadable expiry is worth one attempt");
    assert!(s.expires_at.is_some(), "and gets one from expires_in");
}

#[test]
fn a_refresh_that_returns_no_new_token_keeps_the_one_that_worked() {
    let mut s = with_refresh("the-good-one");
    s.set_tokens("access".into(), None, Some(10_799));
    assert_eq!(s.refresh_token.as_deref(), Some("the-good-one"));

    s.set_tokens("access2".into(), Some("a-newer-one".into()), Some(10_799));
    assert_eq!(s.refresh_token.as_deref(), Some("a-newer-one"));
}

#[test]
fn an_expired_bearer_is_not_fresh() {
    let mut s = Session::default();
    s.set_tokens("x".into(), None, Some(10_799));
    s.expires_at = Some(now_ms().saturating_sub(1));
    assert!(!s.token_fresh());
}

#[test]
fn clearing_the_bearer_keeps_the_token_that_can_mint_another() {
    let mut s = with_refresh("NotARealToken");
    s.set_tokens("x".into(), None, None);
    s.clear_token();
    assert!(s.access_token.is_none());
    assert!(s.can_refresh(), "a 401 must not cost the sign-in");
}

#[test]
fn a_bearer_is_valid_until_a_minute_before_its_expiry() {
    let mut s = Session::default();
    s.set_tokens_at("x".into(), None, Some(120), 1_000);
    assert_eq!(s.expires_at, Some(121_000));
    assert!(s.token_fresh_at(60_999));
    assert!(!s.token_fresh_at(61_000));
    assert_eq!(s.bearer().as_deref(), Some("Bearer x"));
}

// ---- wire ----

#[test]
fn the_first_occ_error_names_the_refusal() {
    let parsed = OccErrors {
        errors: vec![OccError {
            message: Some("Product is not available".into()),
            kind: Some("CartEntryError".into()),
        }],
    };
    match occ_error("addToCart", Some(parsed)).expect("recognised") {
        Error::Occ { operation, message } => {
            assert_eq!(operation, "addToCart");
            assert!(message.contains("not available"));
        }
        other => panic!("{other:?}"),
    }
    assert!(occ_error("addToCart", None).is_none());
    assert!(occ_error("addToCart", Some(OccErrors { errors: vec![] })).is_none());
}

#[test]
fn loose_accessors_read_text_and_truth_however_they_were_typed() {
    let v = obj(vec![
        ("n", s("4.6")),
        ("m", n("5")),
        ("b", n("1")),
        ("z", n("0")),
        ("t", Json::Bool(true)),
        ("w", s(" Yes ")),
        ("s", n("10")),
        ("blank", s("  ")),
        ("null", Json::Null),
    ]);
    assert_eq!(bool_of(&v, "b"), Some(true));
    assert_eq!(bool_of(&v, "z"), Some(false));
    assert_eq!(bool_of(&v, "t"), Some(true));
    assert_eq!(bool_of(&v, "w"), Some(true));
    assert_eq!(bool_of(&v, "n"), None);
    assert_eq!(bool_of(&v, "null"), None);
    assert_eq!(str_of(&v, "s").as_deref(), Some("10"));
    assert_eq!(str_of(&v, "t").as_deref(), Some("true"));
    assert_eq!(str_of(&v, "blank"), None, "whitespace reads as absent");
    assert_eq!(str_of(&v, "null"), None);
    assert_eq!(any_str(&v, &["missing", "s"]).as_deref(), Some("10"));
    assert_eq!(any_str(&v, &["missing", "blank"]), None);
}

#[test]
fn codes_arrive_as_numbers_and_are_kept_as_strings() {
    let hit = obj(vec![("storesWithStock", arr(vec![n("66"), n("25"), s("42"), Json::Null]))]);
    assert_eq!(codes(&hit, "storesWithStock"), ["66", "25", "42"]);
    assert!(codes(&hit, "clickAndCollect").is_empty());
}

#[test]
fn stock_answers_every_store_in_one_call() {
    let v = obj(vec![(
        "stockIndicator",
        arr(vec![
            obj(vec![
                ("stockIndicator", s("LOW_STOCK")),
                ("storeCode", s("66")),
                ("storeDisplayName", s("Whangārei")),
            ]),
            obj(vec![
                ("stockIndicator", s("IN_STOCK")),
                ("storeCode", s("42")),
                ("storeDisplayName", s("Napier")),
            ]),
        ]),
    )]);
    let st = stock(&v);
    assert_eq!(st.len(), 2);
    assert_eq!(st[0].level, StockLevel::LowStock);
    assert!(st[1].level.is_available());
}

#[test]
fn a_stock_row_with_no_store_is_not_a_row() {
    let v = obj(vec![(
        "stockIndicator",
        arr(vec![
            obj(vec![("stockIndicator", s("IN_STOCK"))]),
            obj(vec![("storeCode", n("66"))]),
        ]),
    )]);
    let st = stock(&v);
    assert_eq!(st.len(), 1);
    assert_eq!(st[0].store, "66");
    assert_eq!(st[0].store_name, "");
    assert_eq!(st[0].level, StockLevel::Unknown);
}

#[test]
fn an_address_reads_its_fields_a_level_off_their_names() {
    let a = address(&obj(vec![
        ("line1", s("12 Main Rd")),
        ("town", s("Kensington")),
        ("city", s("Whangārei")),
        ("postalCode", n("110")),
        ("nzPostalAddress", s("12 Main Rd, Kensington")),
    ]));
    assert_eq!(a.line1.as_deref(), Some("12 Main Rd"));
    assert_eq!(a.line2, None);
    assert_eq!(a.suburb.as_deref(), Some("Kensington"));
    assert_eq!(a.town.as_deref(), Some("Whangārei"));
    assert_eq!(a.postcode.as_deref(), Some("110"));
    assert_eq!(a.formatted.as_deref(), Some("12 Main Rd, Kensington"));
}

#[test]
fn a_customer_email_is_only_one_that_looks_like_an_address() {
    let c = customer(&obj(vec![
        ("uid", s("abc123")),
        ("displayUid", s("shopper@example.invalid")),
        ("firstName", s("Ada")),
        ("addresses", arr(vec![obj(vec![("line1", s("1 A St"))])])),
    ]));
    assert_eq!(c.email, None, "the first spelling present is taken, and it is not an email");
    assert_eq!(c.first_name.as_deref(), Some("Ada"));
    assert_eq!(c.addresses.len(), 1);
    let c = customer(&obj(vec![("uid", s("shopper@example.invalid"))]));
    assert_eq!(c.email.as_deref(), Some("shopper@example.invalid"));
}

#[test]
fn a_category_answer_without_a_code_is_a_shape_error() {
    let c = category(&obj(vec![
        ("code", s("RF7336")),
        ("name", s("Fence Paint")),
        ("breadcrumbs", arr(vec![obj(vec![("name", s("Paint"))]), obj(vec![])])),
    ]))
    .expect("a category");
    assert_eq!(c.code, "RF7336");
    assert_eq!(c.breadcrumbs, ["Paint"]);
    assert_eq!(c.level(), Some(2));
    match category(&obj(vec![("name", s("x"))])) {
        Err(Error::Shape(m)) => assert_eq!(m, "the category answer carried no code"),
        other => panic!("{other:?}"),
    }
}

#[test]
fn suggestions_are_keyed_by_the_phrase() {
    let body = obj(vec![(
        "results",
        arr(vec![obj(vec![(
            "hits",
            arr(vec![
                obj(vec![("query", s("paint")), ("objectID", s("x"))]),
                obj(vec![("objectID", s("paint brush"))]),
                obj(vec![]),
            ]),
        )])]),
    )]);
    assert_eq!(suggestions(&body), ["paint", "paint brush"]);
    assert!(suggestions(&obj(vec![])).is_empty());
}

#[test]
fn a_price_label_becomes_a_promotion() {
    let prices = obj(vec![(
        "labels",
        arr(vec![obj(vec![("priceBadge", s("WAS_NOW")), ("offerId", s("CT0327"))])]),
    )]);
    let p = promotions(&prices);
    assert_eq!(p.len(), 1);
    assert_eq!(p[0].badge.as_deref(), Some("WAS_NOW"));
    assert_eq!(p[0].offer_id.as_deref(), Some("CT0327"));
    assert_eq!(p[0].text, None);
    assert!(promotions(&Json::Null).is_empty());
}

#[test]
fn a_capped_quantity_is_reported_rather_than_looking_like_a_no_op() {
    let capped = obj(vec![
        ("errorMessage", s("Unfortunately we can only supply 1 right now.")),
        ("quantity", n("1")),
        ("quantityAdded", n("0")),
        ("statusCode", s("lowStock")),
    ]);
    assert_eq!(
        cart_notice(&capped).as_deref(),
        Some("Unfortunately we can only supply 1 right now.")
    );
    assert_eq!(cart_notice(&obj(vec![("quantity", n("3"))])), None);
    assert_eq!(cart_notice(&obj(vec![("errorMessage", s("  "))])), None);
    assert_eq!(
        cart_notice(&obj(vec![("errorMessage", s(" Click &#38 Collect "))])).as_deref(),
        Some("Click & Collect")
    );
}

#[test]
fn the_storefronts_broken_ampersand_is_decoded() {
    assert_eq!(entities("Click &#38 Collect"), "Click & Collect");
    assert_eq!(entities("Click &#38; Collect"), "Click & Collect");
    assert_eq!(entities("Home &amp; Storage"), "Home & Storage");
    assert_eq!(entities("Rolling &#x26; Latched"), "Rolling & Latched");
}

#[test]
fn text_that_is_not_an_entity_is_left_exactly_as_it_came() {
    assert_eq!(entities("Nuts & Bolts"), "Nuts & Bolts");
    assert_eq!(entities("50% off & more"), "50% off & more");
    assert_eq!(entities("R&D"), "R&D");
    assert_eq!(entities(""), "");
}

fn decode(value: &str) -> String {
    let bytes = value.as_bytes();
    let mut out = Vec::new();
    let mut i = 0;
    while i < bytes.len() {
        if bytes[i] == b'%' && i + 2 < bytes.len() {
            let hex = std::str::from_utf8(&bytes[i + 1..i + 3]).expect("ascii");
            out.push(u8::from_str_radix(hex, 16).expect("hex"));
            i += 3;
        } else {
            out.push(bytes[i]);
            i += 1;
        }
    }
    String::from_utf8(out).expect("utf8")
}

fn params_of(query: &Query) -> std::collections::HashMap<String, String> {
    query
        .params()
        .split('&')
        .filter_map(|pair| pair.split_once('='))
        .map(|(k, v)| (decode(k), decode(v)))
        .collect()
}

/// A price bound as the amount prints.
fn price(v: f64) -> Option<String> {
    Some(format!("{v}"))
}

#[test]
fn browsing_filters_the_level_the_code_belongs_to() {
    let p = params_of(&Query::category("RF7336"));
    assert_eq!(p["filters"], "online:true AND categoryID.lvl2:RF7336", "a fineline is lvl2");
    assert_eq!(p["query"], "", "browsing is an empty term, not the name");

    let p = params_of(&Query::category("RS2158"));
    assert_eq!(p["filters"], "online:true AND categoryID.lvl1:RS2158");
}

#[test]
fn a_category_with_no_level_filters_nothing_rather_than_guessing() {
    let q = Query::category("N2");
    assert_eq!(q.category_level(), None);
    assert_eq!(params_of(&q)["filters"], "online:true");
}

#[test]
fn availability_becomes_the_or_clause_the_site_sends() {
    let q = Query::search("paint").with_availability(Availability {
        collect_from: Some("66".into()),
        deliver_to: Some("5".into()),
    });
    assert_eq!(
        params_of(&q)["filters"],
        "online:true AND (clickAndCollect:66 OR homeDelivery:5 OR expressDelivery:5)"
    );
}

#[test]
fn each_facet_is_its_own_group_so_they_and_together() {
    let q = Query::category("RF7336")
        .with_brand(Some("Nouveau".into()))
        .in_stock_at(Some("66".into()));
    let filters: Vec<Vec<String>> =
        serde_json::from_str(&params_of(&q)["facetFilters"]).expect("json");
    assert_eq!(filters, vec![vec!["brandName:Nouveau"], vec!["storesWithStock:66"]]);
}

#[test]
fn a_price_range_becomes_numeric_filters_on_the_sort_price() {
    let q = Query::category("RF7336").with_price(price(13.0), price(19.0));
    let numeric: Vec<String> =
        serde_json::from_str(&params_of(&q)["numericFilters"]).expect("json");
    assert_eq!(numeric, ["prices.sortPrice>=13", "prices.sortPrice<=19"]);

    let q = Query::category("RF7336").with_price(None, None);
    assert!(!q.params().contains("numericFilters"), "omitted when unset");
}

#[test]
fn a_term_with_punctuation_survives_encoding() {
    let q = Query::search("10L Wattyl & fence #1");
    assert_eq!(params_of(&q)["query"], "10L Wattyl & fence #1");
}

#[test]
fn the_body_names_one_index_and_carries_the_params() {
    let body = Query::search("paint").with_page(2).body();
    let requests = match body.get("requests") {
        Some(Json::Array(rs)) => rs,
        other => panic!("{other:?}"),
    };
    let request = &requests[0];
    assert_eq!(request.get("indexName").and_then(Json::as_str), Some("retail_products_relevance"));
    let params = request.get("params").and_then(Json::as_str).expect("a string");
    assert!(params.contains("page=2"), "{params}");
    assert!(params.contains("hitsPerPage=24"), "{params}");
}

#[test]
fn a_query_carries_the_fixed_parameters_in_order() {
    let q = Query::search("x").with_page_size(Some(10)).with_sort(Sort::parse("price-asc"));
    assert_eq!(q.index(), "retail_products_price_asc");
    assert_eq!(q.page_size(), 10);
    assert_eq!(q.term(), Some("x"));
    assert_eq!(Query::category("RD2002").term(), None, "an empty term is none");
    assert!(q.params().starts_with(
        "query=x&hitsPerPage=10&page=0&filters=online%3Atrue&facets=%5B%22availableNationWide%22"
    ));
    assert!(q.params().ends_with("&maxValuesPerFacet=100&ruleContexts=%5B%22standard%22%5D"));
}

#[test]
fn suggestions_ask_their_own_index() {
    let body = Suggest::new("pai nt", 5).body();
    let requests = match body.get("requests") {
        Some(Json::Array(rs)) => rs,
        other => panic!("{other:?}"),
    };
    assert_eq!(
        requests[0].get("indexName").and_then(Json::as_str),
        Some("retail_products_relevance_query_suggestions")
    );
    assert_eq!(requests[0].get("params").and_then(Json::as_str), Some("query=pai%20nt&hitsPerPage=5"));
}

// ---- module behaviour, by the names the module's own tests use ----

#[test]
fn a_cart_is_addressed_by_the_handle_its_caller_is_entitled_to() {
    assert_eq!(cart_handle(Some("3000744918"), Some("f4eaa13e"), false), Some("f4eaa13e"), "anonymous: the guid");
    assert_eq!(cart_handle(Some("3000744918"), Some("f4eaa13e"), true), Some("3000744918"), "signed in: the code");
    assert_eq!(cart_handle(None, Some("f4eaa13e"), true), Some("f4eaa13e"));
    assert_eq!(cart_handle(None, None, true), None);
}

#[test]
fn a_rate_limit_is_named_rather_than_left_as_a_status_code() {
    let limited = Error::RateLimited { retry_after: Some(30) };
    assert!(limited.is_rate_limited());
    assert!(limited.message().contains("rate-limiting"), "{}", limited.message());
    assert!(limited.message().contains("30s"), "{}", limited.message());
    assert_eq!(
        Error::RateLimited { retry_after: None }.message(),
        "Mitre 10 is rate-limiting this client"
    );
}

#[test]
fn an_occ_refusal_names_the_operation_it_came_from() {
    let e = Error::Occ { operation: "addToCart", message: "Product is not available".into() };
    assert!(e.message().contains("addToCart"), "{}", e.message());
    assert_eq!(e.message(), "addToCart was refused: Product is not available");
}

#[test]
fn an_unavailable_sign_in_is_not_reported_as_bad_credentials() {
    let e = Error::LoginUnavailable;
    assert!(e.is_login_unavailable());
    assert!(!e.needs_login(), "there is no password to fix this");
    assert!(!e.is_lapsed(), "and nothing to refresh");
    assert_eq!(e.message(), "Mitre 10's sign-in endpoint refused a client with no storefront session");
}

#[test]
fn a_cors_refusal_is_not_read_as_a_credential_problem() {
    let cors = Error::from_status(403, "Invalid CORS request").expect("classified");
    assert!(matches!(cors, Error::Cors));
    assert!(!cors.is_lapsed());
    assert!(!cors.needs_login());
    assert!(matches!(Error::from_status(401, "").expect("classified"), Error::SessionExpired));
    assert!(Error::from_status(403, "Forbidden").is_none());
}

// ---- a product page, and the order of cart lines ----

fn detail_page() -> Json {
    obj(vec![
        ("code", s("174969")),
        ("name", s("Wattyl Fence Finish")),
        ("title", s("Wattyl Fence Finish Paint 10L")),
        ("subBrandName", s("Wattyl")),
        ("shortDescription", s("For fences")),
        ("priceLabel", obj(vec![("priceBadge", s("WAS_NOW"))])),
        ("uom", s("EA")),
        ("stock", obj(vec![("stockLevelStatus", s("lowStock")), ("stockLevel", n("4"))])),
        ("clickToCollect", Json::Bool(true)),
        ("purchasable", s("yes")),
        ("categories", arr(vec![obj(vec![("code", s("MD01"))]), obj(vec![("name", s("no code"))])])),
        ("breadcrumbs", arr(vec![obj(vec![("name", s("Paint"))]), obj(vec![("name", s("Exterior"))])])),
        (
            "mitre10ProductSpecifications",
            obj(vec![(
                "entry",
                arr(vec![
                    obj(vec![("key", s("Colour")), ("value", s("Black"))]),
                    obj(vec![("name", s("Size")), ("value", n("10"))]),
                    obj(vec![("key", s("Orphan"))]),
                ]),
            )]),
        ),
        (
            "images",
            arr(vec![
                obj(vec![("format", s("thumbnail")), ("url", s("/t.jpg"))]),
                obj(vec![("format", s("1500Wx1500H")), ("url", s("/big.jpg"))]),
                obj(vec![("format", s("zoom")), ("url", s("/zoom.jpg"))]),
                obj(vec![("url", s("/plain.jpg"))]),
                obj(vec![("format", s("zoom"))]),
            ]),
        ),
        ("canonicalUrl", s("/p/174969")),
        (
            "variantOptions",
            arr(vec![
                obj(vec![("code", n("174970")), ("displayName", s("Black")), ("url", s("/p/174970"))]),
                obj(vec![("name", s("no code"))]),
            ]),
        ),
    ])
}

#[test]
fn a_product_page_is_read_for_everything_but_its_numbers() {
    let d = product_detail(&detail_page()).expect("a code");
    assert_eq!(d.code, "174969");
    assert_eq!(d.name, "Wattyl Fence Finish");
    assert_eq!(d.title.as_deref(), Some("Wattyl Fence Finish Paint 10L"));
    assert_eq!(d.brand.as_deref(), Some("Wattyl"), "the sub-brand when there is no brand");
    assert_eq!(d.description.as_deref(), Some("For fences"));
    assert_eq!(d.price_badge.as_deref(), Some("WAS_NOW"));
    assert_eq!(d.unit.as_deref(), Some("EA"));
    assert_eq!(d.stock_indicator, Some(StockLevel::LowStock), "the stock record's word when there is no indicator");
    assert!(d.click_and_collect);
    assert!(d.purchasable);
    assert!(!d.home_delivery, "absent is false");
    assert_eq!(d.categories, ["MD01"]);
    assert_eq!(d.breadcrumbs, ["Paint", "Exterior"]);
    assert_eq!(
        d.specifications,
        [("Colour".to_string(), "Black".to_string()), ("Size".to_string(), "10".to_string())]
    );
    assert_eq!(d.images, ["/big.jpg", "/zoom.jpg", "/plain.jpg"]);
    assert_eq!(d.url.as_deref(), Some("/p/174969"));
    assert_eq!(d.variants.len(), 2);
    assert_eq!(d.variants[0].code, "174970");
    assert_eq!(d.variants[0].name.as_deref(), Some("Black"));
    assert_eq!(d.variants[1].code, "", "a variation with no code keeps its place");
}

#[test]
fn a_product_answer_with_no_code_is_a_shape_error() {
    match product_detail(&obj(vec![("name", s("x"))])) {
        Err(Error::Shape(m)) => assert_eq!(m, "the product answer carried no code"),
        other => panic!("{other:?}"),
    }
}

#[test]
fn cart_lines_come_back_in_line_number_order() {
    // The storefront returns the entry it just touched first.
    assert_eq!(line_order(&vec![2, 0, 1]), vec![1, 2, 0]);
    assert_eq!(line_order(&vec![]), Vec::<usize>::new());
}

#[test]
fn lines_with_one_number_keep_the_order_they_arrived_in() {
    assert_eq!(line_order(&vec![3, -1, 3, 0, -1]), vec![1, 4, 3, 0, 2]);
}

// ---- grid rows ----

#[test]
fn a_hit_with_no_object_id_is_keyed_from_its_url() {
    let hit = obj(vec![("url", s("/shop/wattyl-fence-finish-paint-10l/p/174969")), ("title", s("Paint"))]);
    let p = product(&hit);
    assert_eq!(p.code, "174969");
    assert_eq!(p.name, "Paint", "the title when there is no name");
    assert_eq!(product(&obj(vec![("url", s("/shop/x"))])).code, "", "a URL with no code gives none");
}

#[test]
fn a_hit_keeps_its_fields_when_one_of_them_is_the_wrong_type() {
    let hit = obj(vec![
        ("objectID", n("174969")),
        ("name", s("Wattyl Fence Finish")),
        ("brandName", arr(vec![])),
        ("brand", s("Wattyl")),
        ("supplierColour", s("Black")),
        ("availableNationWide", n("1")),
        ("storesWithStock", arr(vec![n("66"), s("42"), Json::Null])),
        ("clickAndCollect", s("not a list")),
        ("images", obj(vec![("img300Wx300H", s("/300.jpg")), ("img96Wx96H", s("/96.jpg"))])),
        (
            "prices",
            obj(vec![("labels", arr(vec![obj(vec![("priceBadge", s("WAS_NOW")), ("offerId", n("327"))])]))]),
        ),
    ]);
    let p = product(&hit);
    assert_eq!(p.code, "174969");
    assert_eq!(p.brand.as_deref(), Some("Wattyl"), "an array brand is skipped for the next name");
    assert_eq!(p.colour.as_deref(), Some("Black"));
    assert!(p.available_nationwide);
    assert_eq!(p.stores_with_stock, ["66", "42"]);
    assert!(p.in_stock_at("66") && !p.in_stock_at("6"));
    assert!(p.click_and_collect.is_empty());
    assert_eq!(p.image.as_deref(), Some("/300.jpg"));
    assert_eq!(p.promotions.len(), 1);
    assert_eq!(p.promotions[0].badge.as_deref(), Some("WAS_NOW"));
    assert_eq!(p.promotions[0].offer_id.as_deref(), Some("327"));
}

#[test]
fn an_answer_with_no_results_block_is_a_shape_error_not_an_empty_page() {
    for body in [obj(vec![("message", s("forbidden"))]), obj(vec![("results", arr(vec![]))])] {
        match results_block(&body) {
            Err(Error::Shape(m)) => assert_eq!(m, "the search index answered with no results block"),
            other => panic!("{other:?}"),
        }
    }
    let body = obj(vec![("results", arr(vec![obj(vec![("hits", arr(vec![obj(vec![("objectID", s("1"))])]))])]))]);
    let block = results_block(&body).expect("a block");
    let r = rows(block);
    assert_eq!(r.len(), 1);
    assert_eq!(r[0].code, "1");
    assert!(rows(&obj(vec![])).is_empty());
}

#[test]
fn store_codes_arrive_as_numbers_and_are_kept_as_strings() {
    let hit = obj(vec![("objectID", s("1")), ("storesWithStock", arr(vec![n("66"), n("25"), n("42")]))]);
    let p = product(&hit);
    assert_eq!(p.stores_with_stock, ["66", "25", "42"]);
    assert!(p.in_stock_at("66"));
    assert!(!p.in_stock_at("99"));
}

// ---- shops, carts, orders and the saved list ----

#[test]
fn a_store_takes_its_numeric_code_from_the_field_called_name() {
    let v = obj(vec![
        ("name", s("66")),
        ("displayName", s("Mitre 10 MEGA Whangārei")),
        ("storeCode", s("X57")),
        ("address", obj(vec![("phone", s("09 430 4009")), ("postalCode", s("0110"))])),
        ("todayOpeningHours", obj(vec![("openingTime", s("7:00am"))])),
        ("expressDeliveryEnabled", Json::Bool(true)),
    ]);
    let st = records::store(&v);
    assert_eq!(st.code, "66");
    assert_eq!(st.sap_code.as_deref(), Some("X57"));
    assert_eq!(st.name, "Mitre 10 MEGA Whangārei");
    assert_eq!(st.phone.as_deref(), Some("09 430 4009"));
    assert_eq!(st.address.as_ref().and_then(|a| a.postcode.as_deref()), Some("0110"));
    assert_eq!(st.today_hours.as_deref(), Some("7:00am"));
    assert!(st.express_delivery);
    let static_code = records::store(&obj(vec![("staticStoreCode", n("66")), ("name", s("Whangārei"))]));
    assert_eq!(static_code.code, "66", "the static code wins over the name");
}

#[test]
fn a_store_list_is_read_from_either_of_its_names() {
    let mine = obj(vec![("myStoreList", arr(vec![obj(vec![("name", s("66"))])])), ("stores", arr(vec![]))]);
    assert_eq!(records::stores(&mine).len(), 1);
    let near = obj(vec![("stores", arr(vec![obj(vec![("name", s("1"))]), obj(vec![("name", s("2"))])]))]);
    let codes: Vec<String> = records::stores(&near).into_iter().map(|st| st.code).collect();
    assert_eq!(codes, ["1", "2"]);
    assert!(records::stores(&obj(vec![("myStoreList", s("none"))])).is_empty());
}

#[test]
fn a_cart_is_read_for_everything_but_its_numbers() {
    let v = obj(vec![
        ("code", s("3000744918")),
        ("guid", s("f4eaa13e")),
        ("deliveryMode", obj(vec![("code", s("HD")), ("name", s("Click &#38 Collect"))])),
        (
            "entries",
            arr(vec![
                obj(vec![
                    ("product", obj(vec![("code", s("269938")), ("name", s("Storage Bin & Lid"))])),
                    ("updateable", Json::Bool(false)),
                ]),
                obj(vec![("deliveryPointOfService", obj(vec![("name", s("Napier"))]))]),
            ]),
        ),
        ("appliedVouchers", arr(vec![obj(vec![("voucherCode", s("SAVE5"))]), obj(vec![])])),
        ("ctccollectToStoreDisplayName", s("Whangārei")),
    ]);
    let c = records::cart(&v);
    assert_eq!(c.code.as_deref(), Some("3000744918"));
    assert_eq!(c.guid.as_deref(), Some("f4eaa13e"));
    let d = c.delivery.expect("a delivery mode");
    assert_eq!(d.name.as_deref(), Some("Click & Collect"), "the storefront's broken entity is decoded");
    assert_eq!(c.lines.len(), 2);
    assert_eq!(c.lines[0].code, "269938");
    assert!(!c.lines[0].updateable);
    assert_eq!(c.lines[1].code, "", "a line with no product keeps its place");
    assert!(c.lines[1].updateable, "updateable unless it says otherwise");
    assert_eq!(c.lines[1].pickup_store.as_deref(), Some("Napier"));
    assert_eq!(c.vouchers, ["SAVE5"]);
    assert_eq!(c.pickup_store.as_deref(), Some("Whangārei"));
}

#[test]
fn an_order_page_carries_each_order_and_its_lines() {
    let v = obj(vec![(
        "orders",
        arr(vec![
            obj(vec![
                ("guid", s("g-1")),
                ("created", s("2026-01-02")),
                ("status", s("COMPLETED")),
                ("statusDisplay", s("Completed")),
                ("entries", arr(vec![obj(vec![("product", obj(vec![("code", s("1")), ("title", s("Hammer"))]))])])),
            ]),
            obj(vec![("code", s("00012"))]),
        ]),
    )]);
    let os = records::orders(&v);
    assert_eq!(os.len(), 2);
    assert_eq!(os[0].code, "g-1", "the guid when there is no code");
    assert_eq!(os[0].placed.as_deref(), Some("2026-01-02"));
    assert_eq!(os[0].status.as_deref(), Some("Completed"));
    assert_eq!(os[0].lines[0].name, "Hammer");
    assert_eq!(os[1].code, "00012");
    assert!(os[1].lines.is_empty());
}

#[test]
fn a_saved_entry_without_a_code_is_not_an_item() {
    let v = obj(vec![(
        "wishlistEntries",
        arr(vec![
            obj(vec![("product", obj(vec![("code", s("1")), ("name", s("Drill"))]))]),
            obj(vec![("product", obj(vec![("name", s("nameless"))]))]),
            obj(vec![("code", n("2")), ("title", s("Saw")), ("url", s("/p/2"))]),
        ]),
    )]);
    let items = records::wishlist(&v);
    assert_eq!(items.len(), 2);
    assert_eq!(items[0].code, "1");
    assert_eq!(items[1].code, "2", "an entry that is its own product record");
    assert_eq!(items[1].name, "Saw");
    assert_eq!(records::saved_products(&v).len(), 2);
    assert!(records::wishlist(&obj(vec![("entries", s("none")), ("wishlistEntries", arr(vec![]))])).is_empty());
}

#[test]
fn the_algolia_application_is_read_from_a_configuration_that_carries_more() {
    assert_eq!(config_value(&obj(vec![("value", s("{}"))])).expect("a value"), "{}");
    match config_value(&obj(vec![])) {
        Err(Error::Shape(m)) => assert_eq!(m, "mitre10.algolia.index.config carried no value"),
        other => panic!("{other:?}"),
    }
    let config = obj(vec![
        ("appId", s("ABC123")),
        ("searchApiKey", s("key")),
        ("productIndex", s("prod_products")),
        ("hitsPerPage", n("24")),
    ]);
    let a = algolia_from(&config).expect("an application");
    assert_eq!(a.app_id, "ABC123");
    assert_eq!(a.search_key, "key");
    match algolia_from(&obj(vec![("appId", s("ABC123"))])) {
        Err(Error::Shape(m)) => assert_eq!(m, "mitre10.algolia.index.config named no Algolia application"),
        other => panic!("{other:?}"),
    }
}

#[test]
fn facet_entries_rank_commonest_first_then_by_value() {
    let values: Vec<String> = ["Red", "Blue", "Green", "Blue", "Amber"].iter().map(|v| v.to_string()).collect();
    assert_eq!(facet_order(&vec![3, 7, 3, 7, 1], &values), vec![1, 3, 2, 0, 4]);
    let names: Vec<String> = ["size", "brand", "colour"].iter().map(|v| v.to_string()).collect();
    assert_eq!(facet_order(&vec![0, 0, 0], &names), vec![1, 2, 0], "equal counts order by value alone");
    assert_eq!(facet_order(&vec![], &vec![]), Vec::<usize>::new());
}

#[test]
fn a_password_that_earns_no_code_is_a_lapsed_login() {
    assert_eq!(earned_code(Some("abc".into())).expect("a code"), "abc");
    assert!(matches!(earned_code(None), Err(Error::LoginLapsed)));
}

#[test]
fn a_postcode_group_is_a_bare_number_not_json() {
    assert_eq!(postcode_group("5", "0176").expect("a group"), "5");
    assert_eq!(postcode_group(" \"5\"\n", "0176").expect("a group"), "5", "quotes and space are not the group");
    match postcode_group(" \"\" ", "0176") {
        Err(Error::Shape(m)) => assert_eq!(m, "no delivery group for postcode 0176"),
        other => panic!("{other:?}"),
    }
}

#[test]
fn an_unknown_product_is_named_rather_than_left_as_a_404() {
    let missing = || Error::NoSuchProduct("123".into());
    for status in [400, 404] {
        let e = no_such(Error::Http { status: Some(status), body: String::new() }, missing());
        assert!(matches!(e, Error::NoSuchProduct(ref c) if c == "123"), "{status}: {e:?}");
    }
    let e = no_such(Error::Http { status: Some(500), body: "boom".into() }, missing());
    assert!(matches!(e, Error::Http { status: Some(500), .. }));
    assert!(matches!(no_such(Error::Cors, missing()), Error::Cors));
}

#[test]
fn the_batch_endpoint_gets_padded_codes_in_chunks() {
    // Nineteen codes: one full batch of eighteen and a remainder.
    let codes: Vec<String> = std::iter::repeat_n("174969".to_string(), 19).collect();
    let batches = price_batches(&codes);
    assert_eq!(batches.len(), 2);
    assert_eq!(batches[0].split(',').count(), 18);
    assert!(batches[0].split(',').all(|c| c == "000000000000174969"));
    assert_eq!(batches[1], "000000000000174969");
    assert!(price_batches(&vec![]).is_empty());
    let exact: Vec<String> = (1..=18).map(|n| n.to_string()).collect();
    assert_eq!(price_batches(&exact).len(), 1);
}

#[test]
fn the_client_keeps_a_redirect_for_the_oauth_code() {
    let spec = client_spec();
    assert_eq!(spec.profile, EMULATION);
    assert_eq!(spec.profile, "Firefox139");
    assert!(!spec.follows_redirects);
    let other = client_spec_for("Chrome137");
    assert_eq!(other.profile, "Chrome137");
    assert!(!other.follows_redirects);
}

#[test]
fn each_link_id_splits_back_into_its_code_and_name() {
    let tree = tree(&page()).expect("found");
    let got: Vec<(String, String)> = link_ids(&tree).iter().map(|id| split(id).expect("splits")).collect();
    assert_eq!(
        got,
        [
            ("N2".to_string(), "Garden".to_string()),
            ("RD2002".to_string(), "Garden Equipment".to_string()),
            ("RS2158".to_string(), "Rugs Mats".to_string()),
        ]
    );
}

#[test]
fn a_fulfilment_reads_back_from_its_code_and_its_label() {
    for f in [Fulfilment::ClickToCollect, Fulfilment::HomeDelivery, Fulfilment::ExpressDelivery] {
        assert_eq!(Fulfilment::parse(f.code()), Some(f));
        assert_eq!(Fulfilment::parse(f.label()), Some(f));
    }
}

#[test]
fn a_lapsed_bearer_is_renewed_once_and_then_believed() {
    let lapsed: Result<u8, Error> = Err(Error::SessionExpired);
    assert!(matches!(after_authed(true, lapsed), Renewal::RenewAndRetry));
    let again: Result<u8, Error> = Err(Error::NotSignedIn);
    assert!(matches!(after_authed(false, again), Renewal::Answer(Err(Error::NotSignedIn))));
    assert!(matches!(after_authed(true, Ok(3u8)), Renewal::Answer(Ok(3))));
    let refused: Result<u8, Error> = Err(Error::LoginLapsed);
    assert!(matches!(after_authed(true, refused), Renewal::Answer(Err(Error::LoginLapsed))));
}
