use orderpilot::error::{AppError, AppErrorDto};
use orderpilot::json::{get, text_member, Json};
use orderpilot::repository::StoreCredentials;
use orderpilot::shopify::attempts::{Attempts, Envelope, RequestAction, RequestEvent};
use orderpilot::shopify::exchange::{
    base_override, checked_endpoint, endpoint, retry_after_delay, GRAPHQL_PATH, REQUEST_TIMEOUT,
};
use orderpilot::shopify::graphql::{invalid_response, CREATE_ORDER_MUTATION, FIND_ORDER_QUERY};
use orderpilot::shopify::{
    connection_report, customer_search_query, escape_search_term, found_customers, found_variants,
    normalize_search_query, search_target, source_search_query, variant_search_query,
    ConnectionData,
    ConnectionReport, CustomerAddressNode, CustomerConnection, CustomerEmailAddress, CustomerNode,
    CustomerSearchData, Installation, Scope, Shop, VariantConnection, VariantNode, VariantProduct,
    VariantSearchData, VariantSearchShop, CONNECTION_QUERY, CUSTOMER_SEARCH_QUERY,
    VARIANT_SEARCH_QUERY,
};

const SECOND: u128 = 1_000_000_000;

fn credentials() -> StoreCredentials {
    StoreCredentials {
        shop_domain: "northwind.myshopify.com".into(),
        access_token: "shpat_secret".into(),
    }
}

fn read(value: serde_json::Value) -> Json {
    match value {
        serde_json::Value::Null => Json::Null,
        serde_json::Value::Bool(b) => Json::Bool(b),
        serde_json::Value::Number(n) => Json::Number(n),
        serde_json::Value::String(text) => Json::Text(text),
        serde_json::Value::Array(items) => Json::Array(items.into_iter().map(read).collect()),
        serde_json::Value::Object(members) => Json::Object(
            members
                .into_iter()
                .map(|(key, value)| (key, read(value)))
                .collect(),
        ),
    }
}

/// One answer of a shop.
#[derive(Clone)]
struct Answer {
    status: u16,
    retry_after: Option<String>,
    body: String,
}

fn answer(status: u16, body: &str) -> Answer {
    Answer {
        status,
        retry_after: None,
        body: body.into(),
    }
}

fn throttle_delay(body: &serde_json::Value) -> Option<u128> {
    let cost = body.get("extensions")?.get("cost")?;
    let requested = cost.get("requestedQueryCost")?.as_f64()?;
    let throttle = cost.get("throttleStatus")?;
    let available = throttle.get("currentlyAvailable")?.as_f64()?;
    let restore = throttle.get("restoreRate")?.as_f64()?;
    if requested < 0.0 || available < 0.0 || restore <= 0.0 {
        return None;
    }
    std::time::Duration::try_from_secs_f64(((requested - available) / restore).max(0.0))
        .ok()
        .map(|delay| delay.as_nanos())
}

/// What came of a request: its result, how often it was sent and what it waited for.
struct Outcome {
    result: Result<Json, AppError>,
    sends: usize,
    waits: Vec<u128>,
}

fn exchange(mut attempts: Attempts, answers: Vec<Result<Answer, bool>>) -> Outcome {
    let mut sends = 0;
    let mut waits = Vec::new();
    let mut current = None;
    let mut action = RequestAction::Send;
    loop {
        let event = match action {
            RequestAction::Send => {
                let reply = answers[sends.min(answers.len() - 1)].clone();
                sends += 1;
                match reply {
                    Err(timed_out) => RequestEvent::Unanswered { timed_out },
                    Ok(reply) => {
                        let event = RequestEvent::Answered {
                            status: reply.status,
                            header_delay: reply.retry_after.as_deref().and_then(retry_after_delay),
                        };
                        current = Some(reply);
                        event
                    }
                }
            }
            RequestAction::ReadThrottle => RequestEvent::ThrottleRead {
                delay: serde_json::from_str(&current.as_ref().unwrap().body)
                    .ok()
                    .and_then(|body| throttle_delay(&body)),
            },
            RequestAction::Wait(delay) => {
                waits.push(delay);
                RequestEvent::Waited
            }
            RequestAction::ReadBody => {
                let text = &current.as_ref().unwrap().body;
                match serde_json::from_str::<serde_json::Value>(text) {
                    Ok(serde_json::Value::Object(mut members)) => {
                        let throttle =
                            throttle_delay(&serde_json::Value::Object(members.clone()));
                        RequestEvent::Enveloped(Envelope {
                            data: members
                                .remove("data")
                                .filter(|data| !data.is_null())
                                .map(read),
                            errors: match members.remove("errors") {
                                Some(serde_json::Value::Array(errors)) => {
                                    Some(errors.into_iter().map(read).collect())
                                }
                                _ => None,
                            },
                            throttle,
                        })
                    }
                    _ => RequestEvent::Malformed,
                }
            }
            RequestAction::Fail(error) => {
                return Outcome {
                    result: Err(error),
                    sends,
                    waits,
                }
            }
            RequestAction::Deliver(data) => {
                return Outcome {
                    result: Ok(data),
                    sends,
                    waits,
                }
            }
        };
        assert!(attempts.accepts(&event));
        action = attempts.step(event, "shpat_secret");
    }
}

fn query(answers: Vec<Result<Answer, bool>>) -> Outcome {
    exchange(Attempts::of_query(), answers)
}

fn owned(value: &Json, key: &str) -> Option<String> {
    text_member(value, key).map(String::from)
}

fn items<'a>(value: &'a Json, key: &str) -> Option<&'a Vec<Json>> {
    match get(value, key) {
        Some(Json::Array(items)) => Some(items),
        _ => None,
    }
}

fn connection_data(data: &Json) -> Option<ConnectionData> {
    let shop = get(data, "shop")?;
    let mut access_scopes = Vec::new();
    for scope in items(get(data, "currentAppInstallation")?, "accessScopes")? {
        access_scopes.push(Scope {
            handle: owned(scope, "handle")?,
        });
    }
    Some(ConnectionData {
        shop: Shop {
            name: owned(shop, "name")?,
            myshopify_domain: owned(shop, "myshopifyDomain")?,
        },
        current_app_installation: Installation { access_scopes },
    })
}

fn test_connection(outcome: Outcome) -> Result<ConnectionReport, AppError> {
    match connection_data(&outcome.result?) {
        Some(data) => Ok(connection_report(data)),
        None => Err(invalid_response()),
    }
}

fn connection_response(scopes: &[&str]) -> String {
    let handles: Vec<String> = scopes
        .iter()
        .map(|scope| format!(r#"{{"handle": "{scope}"}}"#))
        .collect();
    format!(
        r#"{{"data": {{
            "shop": {{"name": "Northwind", "myshopifyDomain": "northwind.myshopify.com"}},
            "currentAppInstallation": {{"accessScopes": [{}]}}
        }}}}"#,
        handles.join(", ")
    )
}

const REQUIRED: [&str; 4] = [
    "read_products",
    "read_customers",
    "read_orders",
    "write_orders",
];

fn assert_redacted(error: &AppError) {
    assert!(!format!("{error:?}").contains("shpat_secret"));
    assert!(!error.message().contains("shpat_secret"));
    let dto = AppErrorDto::from(error);
    assert!(!format!("{dto:?}").contains("shpat_secret"));
}

#[test]
fn test_connection_reports_each_missing_required_scope() {
    for missing in REQUIRED {
        let granted: Vec<&str> = REQUIRED
            .iter()
            .filter(|scope| **scope != missing)
            .copied()
            .collect();
        let report =
            test_connection(query(vec![Ok(answer(200, &connection_response(&granted)))])).unwrap();
        assert!(!report.required_scopes_present);
        assert_eq!(report.missing_scopes, vec![missing]);
    }
}

#[test]
fn missing_scopes_stand_in_order() {
    let report = test_connection(query(vec![Ok(answer(
        200,
        &connection_response(&["read_orders", "other"]),
    ))]))
    .unwrap();
    assert_eq!(
        report.missing_scopes,
        vec!["read_products", "read_customers", "write_orders"]
    );
}

#[test]
fn authentication_errors_are_non_retryable_and_never_contain_token() {
    for status in [401, 403] {
        let outcome = query(vec![Ok(answer(
            status,
            "Access denied: shpat_secret; missing write_orders",
        ))]);
        assert_eq!(outcome.sends, 1);
        let error = outcome.result.unwrap_err();
        assert_eq!(
            error.code(),
            if status == 401 {
                "SHOPIFY_UNAUTHORIZED"
            } else {
                "SHOPIFY_FORBIDDEN"
            }
        );
        assert!(!error.retryable());
        assert_redacted(&error);
    }
}

#[test]
fn graphql_top_level_errors_win_over_partial_data_and_are_sanitized() {
    let mut body = connection_response(&REQUIRED);
    body.pop();
    body.push_str(
        r#", "errors": [{"message": "shpat_secret", "extensions": {"code": "THROTTLED"}}]}"#,
    );
    let outcome = query(vec![Ok(answer(200, &body))]);
    assert_eq!(outcome.sends, 1);
    let error = outcome.result.unwrap_err();
    assert_eq!(error.code(), "SHOPIFY_GRAPHQL");
    assert!(!error.retryable());
    assert_redacted(&error);
}

#[test]
fn codes_of_the_shop_are_kept_and_the_token_in_them_is_not() {
    let outcome = query(vec![Ok(answer(
        200,
        r#"{"errors": [
            {"extensions": {"code": "UNDEFINED_FIELD"}},
            {"extensions": {"code": "AT_shpat_secret"}}
        ]}"#,
    ))]);
    let error = outcome.result.unwrap_err();
    assert_eq!(error.code(), "SHOPIFY_GRAPHQL");
    assert_eq!(
        error.message(),
        "Shopify GraphQL 请求失败，请检查权限和请求参数 [UNDEFINED_FIELD, AT_[REDACTED]]"
    );
    assert_redacted(&error);
}

#[test]
fn a_mutation_that_is_throttled_to_the_last_names_the_code() {
    let outcome = exchange(
        Attempts::of_order_mutation(),
        vec![Ok(answer(
            200,
            r#"{"errors": [{"extensions": {"code": "THROTTLED"}}]}"#,
        ))],
    );
    assert_eq!(outcome.sends, 3);
    let error = outcome.result.unwrap_err();
    assert_eq!(error.code(), "SHOPIFY_RATE_LIMITED");
    assert!(error.retryable());
    assert_eq!(error.message(), "Shopify 请求受限，请稍后重试 [THROTTLED]");
}

const THROTTLE: &str = r#"{"extensions": {"cost": {
    "requestedQueryCost": 100,
    "throttleStatus": {"currentlyAvailable": 0, "restoreRate": 25}
}}}"#;

#[test]
fn retries_transient_http_failures_with_retry_after_and_throttle_metadata() {
    let mut first = answer(429, THROTTLE);
    first.retry_after = Some("2".into());
    let mut second = answer(500, THROTTLE);
    second.retry_after = Some("7".into());
    let outcome = query(vec![
        Ok(first),
        Ok(second),
        Ok(answer(200, &connection_response(&REQUIRED))),
    ]);
    assert_eq!(outcome.sends, 3);
    assert_eq!(outcome.waits, vec![4 * SECOND, 7 * SECOND]);
    assert!(test_connection(outcome).unwrap().required_scopes_present);
}

#[test]
fn retryable_http_failures_stop_after_three_total_attempts() {
    for status in [429, 500, 502, 503, 599] {
        let outcome = query(vec![Ok(answer(status, "shpat_secret"))]);
        assert_eq!(outcome.sends, 3);
        let error = outcome.result.unwrap_err();
        assert_eq!(
            error.code(),
            if status == 429 {
                "SHOPIFY_RATE_LIMITED"
            } else {
                "SHOPIFY_SERVER_ERROR"
            }
        );
        assert!(error.retryable());
        assert_redacted(&error);
        assert_eq!(outcome.waits, vec![SECOND, 2 * SECOND]);
    }
}

#[test]
fn other_http_statuses_are_not_retried_and_redirects_are_not_followed() {
    for status in [302, 307, 400, 404, 408, 422] {
        let outcome = query(vec![Ok(answer(status, "shpat_secret"))]);
        assert_eq!(outcome.sends, 1);
        let error = outcome.result.unwrap_err();
        assert_eq!(error.code(), "SHOPIFY_HTTP");
        assert!(!error.retryable());
        assert_redacted(&error);
        assert!(outcome.waits.is_empty());
    }
}

#[test]
fn malformed_or_missing_graphql_data_is_not_retried_and_never_leaks_token() {
    for body in [
        "shpat_secret",
        "{}",
        "{\"data\":null}",
        "{\"data\":{\"shop\":\"shpat_secret\"}}",
    ] {
        let outcome = query(vec![Ok(answer(200, body))]);
        assert_eq!(outcome.sends, 1);
        let error = test_connection(outcome).unwrap_err();
        assert_eq!(error.code(), "SHOPIFY_INVALID_RESPONSE");
        assert!(!error.retryable());
        assert_redacted(&error);
    }
}

#[test]
fn mutation_user_errors_remain_typed_data_and_echoed_tokens_are_redacted() {
    let outcome = query(vec![Ok(answer(
        200,
        r#"{"data": {
            "orderCreate": {"order": null, "userErrors": [{"field": ["order", "email"],
                "message": "Invalid value shpat_secret"}]}
        }}"#,
    ))]);
    let data = outcome.result.unwrap();
    let errors = items(get(&data, "orderCreate").unwrap(), "userErrors").unwrap();
    let field = items(&errors[0], "field").unwrap();
    assert!(matches!(&field[0], Json::Text(text) if text == "order"));
    assert!(matches!(&field[1], Json::Text(text) if text == "email"));
    assert_eq!(
        text_member(&errors[0], "message"),
        Some("Invalid value [REDACTED]")
    );
    assert!(!format!("{data:?}").contains("shpat_secret"));
}

#[test]
fn request_times_out_after_thirty_seconds_without_retrying() {
    assert_eq!(REQUEST_TIMEOUT, 30);
    let outcome = query(vec![Err(true)]);
    assert_eq!(outcome.sends, 1);
    let error = outcome.result.unwrap_err();
    assert_eq!(error.code(), "SHOPIFY_TIMEOUT");
    assert!(!error.retryable());
    assert_redacted(&error);
    assert!(outcome.waits.is_empty());
}

#[test]
fn retry_after_http_date_and_invalid_throttle_values_are_handled() {
    let retry_at = (chrono::Utc::now() + chrono::Duration::seconds(5)).to_rfc2822();
    let mut limited = answer(
        429,
        r#"{"extensions": {"cost": {
            "requestedQueryCost": 100,
            "throttleStatus": {"currentlyAvailable": 0, "restoreRate": 0}
        }}}"#,
    );
    limited.retry_after = Some(retry_at);
    let outcome = query(vec![Ok(limited)]);
    assert_eq!(outcome.result.unwrap_err().code(), "SHOPIFY_RATE_LIMITED");
    assert_eq!(outcome.waits.len(), 2);
    assert!(outcome
        .waits
        .iter()
        .all(|delay| *delay > 0 && *delay <= 5 * SECOND));
}

#[test]
fn network_failure_is_sanitized_and_not_retried() {
    let outcome = query(vec![Err(false)]);
    assert_eq!(outcome.sends, 1);
    let error = outcome.result.unwrap_err();
    assert_eq!(error.code(), "SHOPIFY_NETWORK");
    assert!(!error.retryable());
    assert_redacted(&error);
    assert!(outcome.waits.is_empty());
}

#[test]
fn a_body_that_breaks_off_is_a_network_failure() {
    for (timed_out, code) in [(true, "SHOPIFY_TIMEOUT"), (false, "SHOPIFY_NETWORK")] {
        let mut attempts = Attempts::of_order_mutation();
        let action = attempts.step(
            RequestEvent::Answered {
                status: 200,
                header_delay: None,
            },
            "t",
        );
        assert!(matches!(action, RequestAction::ReadBody));
        match attempts.step(RequestEvent::BodyLost { timed_out }, "t") {
            RequestAction::Fail(error) => assert_eq!(error.code(), code),
            _ => panic!("the request is at its end"),
        }
        assert!(!attempts.accepts(&RequestEvent::Waited));
    }
}

#[test]
fn invalid_header_credentials_fail_without_network_and_are_sanitized() {
    let mut store = credentials();
    store.access_token = "shpat_secret\ninvalid".into();
    let error = endpoint(&store, None).unwrap_err();
    assert_eq!(error.code(), "SHOPIFY_CREDENTIALS");
    assert_redacted(&error);
}

#[test]
fn header_texts_are_told_apart() {
    let url = || Some("https://a.example/".to_string());
    for token in ["", "shpat_secret", "a\tb", "令牌"] {
        assert!(checked_endpoint(url(), token).is_ok(), "{token:?}");
    }
    for token in ["a\nb", "a\rb", "\0", "\u{7f}"] {
        assert_eq!(
            checked_endpoint(url(), token).unwrap_err().code(),
            "SHOPIFY_CREDENTIALS",
            "{token:?}"
        );
    }
    assert_eq!(
        checked_endpoint(None, "a\nb").unwrap_err().code(),
        "SHOPIFY_INVALID_RESPONSE"
    );
}

#[test]
fn test_connection_uses_pinned_graphql_endpoint_and_token_header() {
    assert_eq!(GRAPHQL_PATH, "/admin/api/2026-07/graphql.json");
    assert_eq!(
        endpoint(&credentials(), None).unwrap(),
        "https://northwind.myshopify.com/admin/api/2026-07/graphql.json"
    );
    let base = base_override(Some("http://127.0.0.1:8080")).unwrap().unwrap();
    assert_eq!(
        endpoint(&credentials(), Some(&base)).unwrap(),
        "http://127.0.0.1:8080/admin/api/2026-07/graphql.json"
    );
    let report = test_connection(query(vec![Ok(answer(
        200,
        &connection_response(&REQUIRED),
    ))]))
    .unwrap();
    assert!(report.required_scopes_present);
    assert!(report.missing_scopes.is_empty());
    assert_eq!(report.shop_name, "Northwind");
    assert_eq!(report.shop_domain, "northwind.myshopify.com");
    assert!(CONNECTION_QUERY.contains("currentAppInstallation"));
}

#[test]
fn base_addresses_must_be_urls() {
    assert_eq!(base_override(None).unwrap(), None);
    assert_eq!(
        base_override(Some("no url")).unwrap_err().code(),
        "SHOPIFY_CONFIG"
    );
    assert_eq!(
        base_override(Some("HTTP://Example.COM")).unwrap().as_deref(),
        Some("http://example.com/")
    );
    let mut store = credentials();
    store.shop_domain = "not a shop".into();
    store.access_token = "\n".into();
    assert_eq!(
        endpoint(&store, Some("mailto:a@b")).unwrap_err().code(),
        "INVALID_SHOP_DOMAIN"
    );
    store.shop_domain = "northwind".into();
    assert_eq!(
        endpoint(&store, Some("mailto:a@b")).unwrap_err().code(),
        "SHOPIFY_INVALID_RESPONSE"
    );
}

#[test]
fn search_variants_maps_products_to_selectable_variants() {
    let term = normalize_search_query("  hoodie  ").unwrap();
    assert_eq!(
        variant_search_query(term),
        "\"hoodie\" OR sku:\"hoodie\""
    );
    let node = |id: &str, title: &str, sku: Option<&str>, stock: Option<i64>| VariantNode {
        id: id.into(),
        title: title.into(),
        sku: sku.map(String::from),
        price: "49.95".into(),
        inventory_quantity: stock,
        product: VariantProduct {
            title: "Hoodie".into(),
        },
    };
    let rows = found_variants(VariantSearchData {
        shop: VariantSearchShop {
            currency_code: "USD".into(),
        },
        product_variants: VariantConnection {
            nodes: vec![
                node(
                    "gid://shopify/ProductVariant/101",
                    "Navy / M",
                    Some("HD-NV-M"),
                    Some(7),
                ),
                node("gid://shopify/ProductVariant/102", "Navy / L", None, None),
            ],
        },
    });
    assert_eq!(rows.len(), 2);
    assert_eq!(rows[0].id, "gid://shopify/ProductVariant/101");
    assert_eq!(rows[0].product_title, "Hoodie");
    assert_eq!(rows[0].variant_title, "Navy / M");
    assert_eq!(rows[0].sku.as_deref(), Some("HD-NV-M"));
    assert_eq!(rows[0].price, "49.95");
    assert_eq!(rows[0].currency_code, "USD");
    assert_eq!(rows[0].inventory_quantity, Some(7));
    assert_eq!(rows[1].sku, None);
    assert_eq!(rows[1].inventory_quantity, None);
    assert!(VARIANT_SEARCH_QUERY.contains("productVariants(first: 20, query: $query)"));
    assert!(!VARIANT_SEARCH_QUERY.contains("hoodie"));
}

#[test]
fn search_customers_maps_nullable_contact_and_address_data() {
    let term = normalize_search_query("  alice  ").unwrap();
    assert_eq!(customer_search_query(term), "\"alice\"");
    let text = |text: &str| Some(text.to_string());
    let rows = found_customers(CustomerSearchData {
        customers: CustomerConnection {
            nodes: vec![
                CustomerNode {
                    id: "gid://shopify/Customer/201".into(),
                    display_name: "Alice Wu".into(),
                    default_email_address: Some(CustomerEmailAddress {
                        email_address: "alice@example.com".into(),
                    }),
                    default_phone_number: None,
                    default_address: Some(CustomerAddressNode {
                        first_name: text("Alice"),
                        last_name: text("Wu"),
                        company: None,
                        address1: text("1 Market Street"),
                        address2: None,
                        city: text("San Francisco"),
                        province_code: text("CA"),
                        country_code_v2: text("US"),
                        zip: text("94105"),
                    }),
                },
                CustomerNode {
                    id: "gid://shopify/Customer/202".into(),
                    display_name: "No contact details".into(),
                    default_email_address: None,
                    default_phone_number: None,
                    default_address: None,
                },
            ],
        },
    });
    assert_eq!(rows.len(), 2);
    assert_eq!(rows[0].id, "gid://shopify/Customer/201");
    assert_eq!(rows[0].display_name, "Alice Wu");
    assert_eq!(rows[0].email.as_deref(), Some("alice@example.com"));
    assert_eq!(rows[0].phone, None);
    let address = rows[0].default_address.as_ref().unwrap();
    assert_eq!(address.address1.as_deref(), Some("1 Market Street"));
    assert_eq!(address.address2, None);
    assert_eq!(address.country_code.as_deref(), Some("US"));
    assert_eq!(rows[1].email, None);
    assert_eq!(rows[1].phone, None);
    assert_eq!(rows[1].default_address, None);
    assert!(CUSTOMER_SEARCH_QUERY.contains("customers(first: 20, query: $query)"));
    assert!(!CUSTOMER_SEARCH_QUERY.contains("alice"));
}

#[test]
fn search_customers_reports_protected_customer_data_separately() {
    let outcome = query(vec![Ok(answer(
        200,
        r#"{
            "data": {"customers": {"nodes": []}},
            "errors": [{
                "message": "This app is not approved to use the phoneNumber field. See https://partners.shopify.com/123/apps/456/customer_data for more details.",
                "locations": [],
                "path": ["customers", "nodes", 0, "defaultPhoneNumber", "phoneNumber"]
            }]
        }"#,
    ))]);
    let error = outcome.result.unwrap_err();
    assert_eq!(error.code(), "CUSTOMER_DATA_RESTRICTED");
    assert!(!error.retryable());
    assert_redacted(&error);
}

#[test]
fn search_rejects_blank_and_overlong_text_before_transport_validation() {
    let invalid_store = StoreCredentials {
        shop_domain: "not-a-shopify-domain".into(),
        access_token: "shpat_secret\ninvalid".into(),
    };
    let overlong = "界".repeat(121);
    for query in ["   ", overlong.as_str()] {
        let error = normalize_search_query(query).unwrap_err();
        assert_eq!(error.code(), "SHOPIFY_SEARCH_QUERY");
        assert!(!error.retryable());
        let error = search_target(&invalid_store, None, query).unwrap_err();
        assert_eq!(error.code(), "SHOPIFY_SEARCH_QUERY");
        assert!(!error.retryable());
    }
}

#[test]
fn searches_go_to_the_endpoint_of_the_store() {
    let target = search_target(&credentials(), None, "  hoodie ").unwrap();
    assert_eq!(target.term, "hoodie");
    assert_eq!(target.url, endpoint(&credentials(), None).unwrap());
    let elsewhere = search_target(&credentials(), Some("http://127.0.0.1:9/"), "hoodie").unwrap();
    assert_eq!(elsewhere.url, format!("http://127.0.0.1:9{GRAPHQL_PATH}"));
    let mut store = credentials();
    store.access_token = "shpat_secret\ninvalid".into();
    assert_eq!(
        search_target(&store, None, "hoodie").unwrap_err().code(),
        "SHOPIFY_CREDENTIALS"
    );
    store.shop_domain = "not a shop".into();
    assert_eq!(
        search_target(&store, None, "hoodie").unwrap_err().code(),
        "INVALID_SHOP_DOMAIN"
    );
}

#[test]
fn search_accepts_120_characters_and_returns_empty_results() {
    let query = "界".repeat(120);
    assert_eq!(normalize_search_query(&query).unwrap(), query);
    assert!(found_variants(VariantSearchData {
        shop: VariantSearchShop {
            currency_code: "USD".into()
        },
        product_variants: VariantConnection { nodes: vec![] },
    })
    .is_empty());
    assert!(found_customers(CustomerSearchData {
        customers: CustomerConnection { nodes: vec![] }
    })
    .is_empty());
}

#[test]
fn search_terms_cannot_leave_their_quotes() {
    assert_eq!(escape_search_term("a\"b\\c"), "a\\\"b\\\\c");
    assert_eq!(
        customer_search_query("\" OR id:1 \\"),
        "\"\\\" OR id:1 \\\\\""
    );
    let source = "orderpilot/00000000-0000-4000-8000-000000000001/1";
    assert_eq!(
        source_search_query(source).unwrap(),
        format!("source_identifier:\"{source}\"")
    );
    assert_eq!(
        source_search_query("a\"b").unwrap_err().code(),
        "INVALID_SOURCE_IDENTIFIER"
    );
    assert!(FIND_ORDER_QUERY.contains("orders(first: 2, query: $query)"));
    assert!(CREATE_ORDER_MUTATION.starts_with("mutation CreateOrder"));
}

#[test]
fn the_order_mutation_is_sent_again_only_after_a_refusal() {
    let refused = r#"{"errors": [{"extensions": {"code": "THROTTLED"}}]}"#;
    let done = r#"{"data": {"orderCreate": {}}}"#;
    let outcome = exchange(
        Attempts::of_order_mutation(),
        vec![
            Ok(answer(200, refused)),
            Ok(answer(429, "")),
            Ok(answer(200, done)),
        ],
    );
    assert_eq!(outcome.sends, 3);
    assert_eq!(outcome.waits, vec![SECOND, 2 * SECOND]);
    assert!(outcome.result.is_ok());

    let outcome = exchange(Attempts::of_order_mutation(), vec![Ok(answer(200, refused))]);
    assert_eq!(outcome.sends, 3);
    let error = outcome.result.unwrap_err();
    assert_eq!(error.code(), "SHOPIFY_RATE_LIMITED");
    assert!(error.retryable());

    for status in [500, 503] {
        let outcome = exchange(Attempts::of_order_mutation(), vec![Ok(answer(status, ""))]);
        assert_eq!(outcome.sends, 1);
        let error = outcome.result.unwrap_err();
        assert_eq!(error.code(), "SHOPIFY_SERVER_ERROR");
        assert!(!error.retryable());
    }
}

#[test]
fn a_throttled_mutation_waits_for_the_header_and_the_throttle_status() {
    let refused = r#"{"errors": [{"extensions": {"code": "THROTTLED"}}],
        "extensions": {"cost": {"requestedQueryCost": 75,
            "throttleStatus": {"currentlyAvailable": 0, "restoreRate": 25}}}}"#;
    let mut first = answer(200, refused);
    first.retry_after = Some("9".into());
    let outcome = exchange(
        Attempts::of_order_mutation(),
        vec![Ok(first), Ok(answer(200, refused))],
    );
    assert_eq!(outcome.waits, vec![9 * SECOND, 3 * SECOND]);
}

#[test]
fn a_lookup_is_sent_once() {
    let outcome = exchange(Attempts::of_lookup(), vec![Ok(answer(429, ""))]);
    assert_eq!(outcome.sends, 1);
    assert_eq!(outcome.result.unwrap_err().code(), "SHOPIFY_RATE_LIMITED");
    assert!(outcome.waits.is_empty());
}
