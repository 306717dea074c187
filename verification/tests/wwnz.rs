use shopping_apis::json::Json;
use shopping_apis::wwnz::client::{call_outcome, graphql_error, Pager, SearchBy, DEFAULT_SORT, MAX_PAGE_SIZE};
use shopping_apis::wwnz::error::Error;

fn obj(pairs: Vec<(&str, Json)>) -> Json {
    Json::Object(pairs.into_iter().map(|(k, v)| (k.to_string(), v)).collect())
}

fn text(s: &str) -> Json {
    Json::Str(s.to_string())
}

#[test]
fn each_way_of_selecting_products_names_its_own_input_field() {
    assert_eq!(SearchBy::Keyword("milk".into()).field(), "byKeyword");
    assert_eq!(SearchBy::Category("9-ABC".into()).field(), "byCategoryKey");
    assert_eq!(SearchBy::Specials.field(), "byProductPromotionSpecials");
    assert_eq!(SearchBy::BuyAgain.field(), "byBuyAgain");
}

#[test]
fn only_buy_again_needs_an_account() {
    assert!(SearchBy::BuyAgain.needs_account());
    assert!(!SearchBy::Keyword("milk".into()).needs_account());
    assert!(!SearchBy::Specials.needs_account());
}

#[test]
fn buy_again_is_ordered_by_how_often_something_was_bought() {
    assert_eq!(SearchBy::BuyAgain.default_sort(), "FREQUENCY");
    assert_eq!(SearchBy::Specials.default_sort(), DEFAULT_SORT);
}

#[test]
fn only_a_keyword_or_a_category_carries_a_value() {
    assert_eq!(SearchBy::Keyword("milk".into()).value(), Some("milk"));
    assert_eq!(SearchBy::Category("9-ABC".into()).value(), Some("9-ABC"));
    assert_eq!(SearchBy::Specials.value(), None);
    assert_eq!(SearchBy::BuyAgain.value(), None);
}

#[test]
fn a_page_is_never_larger_than_the_service_allows_nor_empty() {
    assert_eq!(Pager::new(100).page_size, MAX_PAGE_SIZE);
    assert_eq!(Pager::new(0).page_size, 1);
    assert_eq!(Pager::new(10).page_size, 10);
}

#[test]
fn paging_stops_at_what_was_asked_for() {
    let mut p = Pager::new(50);
    assert!(p.wants_more());
    assert_eq!(p.take(36, Some(5), Some(170)), Some(36));
    assert!(p.wants_more());
    assert_eq!(p.take(36, Some(5), Some(170)), Some(14), "only what is still wanted");
    assert_eq!(p.collected, 50);
    assert!(!p.wants_more());
    assert_eq!(p.total_available, 170);
}

#[test]
fn a_page_of_nothing_but_ad_slots_is_not_the_end_of_the_results() {
    let mut p = Pager::new(10);
    assert_eq!(p.take(0, Some(3), None), Some(0), "more pages follow");
    assert_eq!(p.page, 1);
    assert!(p.wants_more());
    assert_eq!(p.take(0, Some(2), None), None, "an empty last page ends it");
    assert_eq!(p.page, 1);
}

#[test]
fn an_answer_that_does_not_say_how_many_pages_is_the_last() {
    let mut p = Pager::new(10);
    assert_eq!(p.take(4, None, None), Some(4));
    assert_eq!(p.total_pages, 1);
    assert_eq!(p.total_available, 4);
    assert!(!p.wants_more());
}

#[test]
fn an_unauthenticated_extension_is_read_as_a_code_not_as_english() {
    let errors = vec![obj(vec![
        ("message", text("Something went wrong")),
        ("extensions", obj(vec![("code", text("AUTH_NOT_AUTHENTICATED"))])),
    ])];
    assert!(matches!(graphql_error("CustomerCart", &errors, "[]"), Error::NotSignedIn));
}

#[test]
fn other_graphql_errors_keep_their_messages() {
    let errors = vec![obj(vec![("message", text("Field 'x' is unknown"))])];
    let err = graphql_error("CustomerCart", &errors, "[]");
    assert!(err.message().contains("Field 'x' is unknown"), "{}", err.message());
    assert!(!err.is_lapsed());
}

#[test]
fn an_errors_array_with_no_messages_still_says_something() {
    let errors = vec![obj(vec![("path", Json::Array(vec![text("cart")]))])];
    let err = graphql_error("CustomerCart", &errors, r#"[{"path":["cart"]}]"#);
    assert!(err.message().contains("cart"), "{}", err.message());
}

#[test]
fn several_messages_are_joined_and_a_long_listing_is_cut_short() {
    let errors = vec![
        obj(vec![("message", text("one"))]),
        obj(vec![("extensions", obj(vec![("code", text("BAD_INPUT"))]))]),
        obj(vec![("message", text("two"))]),
    ];
    match graphql_error("ProductSearch", &errors, "[]") {
        Error::Graphql { operation, message } => {
            assert_eq!(operation, "ProductSearch");
            assert_eq!(message, "one; two");
        }
        other => panic!("{other:?}"),
    }
    let long = "x".repeat(400);
    match graphql_error("ProductSearch", &vec![obj(vec![])], &long) {
        Error::Graphql { message, .. } => assert_eq!(message.len(), 300),
        other => panic!("{other:?}"),
    }
    let unauth = vec![obj(vec![("extensions", obj(vec![("code", text("UNAUTHENTICATED"))]))])];
    assert!(graphql_error("Me", &unauth, "[]").is_lapsed());
}

#[test]
fn a_lapsed_session_is_told_apart_from_other_refusals() {
    assert!(matches!(
        call_outcome("CustomerCart", 401, r#"{"error":"session_expired"}"#, None),
        Err(Error::SessionExpired)
    ));
    match call_outcome("CustomerCart", 401, "nope", None) {
        Err(Error::Http { status, body }) => {
            assert_eq!(status, Some(401));
            assert_eq!(body, "nope");
        }
        other => panic!("{other:?}"),
    }
    match call_outcome("CustomerCart", 200, "<html>", None) {
        Err(Error::Http { status, .. }) => assert_eq!(status, Some(200)),
        other => panic!("{other:?}"),
    }
}

#[test]
fn errors_on_a_200_win_over_the_data() {
    let body = r#"{"errors":[{"message":"boom"}],"data":{"x":1}}"#;
    let answer = obj(vec![
        ("errors", Json::Array(vec![obj(vec![("message", text("boom"))])])),
        ("data", obj(vec![("x", text("1"))])),
    ]);
    match call_outcome("CustomerCart", 200, body, Some(answer)) {
        Err(Error::Graphql { message, .. }) => assert_eq!(message, "boom"),
        other => panic!("{other:?}"),
    }
    let unauth_body = r#"{"errors":[{"message":"Unexpected error","extensions":{"code":"AUTH_NOT_AUTHENTICATED"}}]}"#;
    let unauth = obj(vec![(
        "errors",
        Json::Array(vec![obj(vec![
            ("message", text("Unexpected error")),
            ("extensions", obj(vec![("code", text("AUTH_NOT_AUTHENTICATED"))])),
        ])]),
    )]);
    assert!(matches!(call_outcome("CustomerCart", 200, unauth_body, Some(unauth)), Err(Error::NotSignedIn)));
}

#[test]
fn the_data_is_the_answer_and_its_absence_is_a_shape_error() {
    let answer = obj(vec![("errors", Json::Array(vec![])), ("data", obj(vec![("cart", text("c"))]))]);
    match call_outcome("CustomerCart", 200, "{}", Some(answer)) {
        Ok(Json::Object(es)) => assert_eq!(es[0].0, "cart"),
        other => panic!("{other:?}"),
    }
    let null = obj(vec![("data", Json::Null)]);
    match call_outcome("CustomerCart", 200, "{}", Some(null)) {
        Err(Error::Shape(m)) => assert_eq!(m, "CustomerCart returned no data"),
        other => panic!("{other:?}"),
    }
    match call_outcome("CustomerCart", 200, "{}", Some(obj(vec![]))) {
        Err(Error::Shape(m)) => assert_eq!(m, "CustomerCart returned no data"),
        other => panic!("{other:?}"),
    }
}

#[test]
fn the_listing_of_an_errors_array_is_what_serde_prints() {
    let body = r#"{ "errors" : [ { "path" : [ "cart" ] } ] }"#;
    let answer = obj(vec![("errors", Json::Array(vec![obj(vec![("path", Json::Array(vec![text("cart")]))])]))]);
    match call_outcome("CustomerCart", 200, body, Some(answer)) {
        Err(Error::Graphql { message, .. }) => assert_eq!(message, r#"[{"path":["cart"]}]"#),
        other => panic!("{other:?}"),
    }
}
