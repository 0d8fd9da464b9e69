use orderpilot::domain::{
    CustomerMode, FinancialStatus, MailingAddress, ManualCustomer, OrderTemplate,
};
use orderpilot::json::{get, nested_text, redact_token, text_member, Json};
use orderpilot::shopify::exchange::{
    delay_asked_at, delay_until, graphql_error, graphql_response_error, http_error,
    is_pre_execution_throttle, is_protected_customer_data_denial, network_error, retry_after_delay,
    retryable_http, throttled_error,
};
use orderpilot::shopify::graphql::{
    filled, filled_address, invalid_response, CreateCustomer, CreateOrderData, CreateOrderInput,
    CreateOrderPayload, CreatedOrder, FindOrderData, FoundOrder, FoundOrders, OrderPageInfo,
    OrderUserError,
};

const SECOND: u128 = 1_000_000_000;

fn read(value: serde_json::Value) -> Json {
    match value {
        serde_json::Value::Null => Json::Null,
        serde_json::Value::Bool(b) => Json::Bool(b),
        serde_json::Value::Number(n) => Json::Number(n),
        serde_json::Value::String(text) => Json::Text(text),
        serde_json::Value::Array(items) => Json::Array(items.into_iter().map(read).collect()),
        serde_json::Value::Object(members) => Json::Object(
            members
                .into_iter()
                .map(|(key, value)| (key, read(value)))
                .collect(),
        ),
    }
}

fn json(text: &str) -> Json {
    read(serde_json::from_str(text).unwrap())
}

#[test]
fn order_mutation_http_retry_policy_excludes_every_ambiguous_failure() {
    assert!(retryable_http(429, true));
    for status in [400, 401, 403, 408, 500, 502, 503, 599] {
        assert!(
            !retryable_http(status, true),
            "must not replay orderCreate after HTTP {status}"
        );
    }
    assert!(retryable_http(500, false));
}

#[test]
fn mutation_throttling_is_retryable_only_when_explicitly_before_execution() {
    let throttled = || json(r#"{"extensions": {"code": "THROTTLED"}}"#);
    assert!(is_pre_execution_throttle(&None, &vec![throttled()]));
    assert!(!is_pre_execution_throttle(
        &Some(json(r#"{"orderCreate": {"order": {"id": "42"}}}"#)),
        &vec![throttled()]
    ));
    assert!(!is_pre_execution_throttle(&None, &vec![]));
    assert!(!is_pre_execution_throttle(
        &None,
        &vec![
            throttled(),
            json(r#"{"extensions": {"code": "INTERNAL_SERVER_ERROR"}}"#)
        ]
    ));
}

#[test]
fn graphql_access_denial_is_distinct_from_ambiguous_execution_errors() {
    assert_eq!(
        graphql_error(&vec![json(
            r#"{"message": "Access denied", "extensions": {"code": "ACCESS_DENIED"}}"#
        )])
        .code(),
        "SHOPIFY_FORBIDDEN"
    );
    assert_eq!(
        graphql_error(&vec![json(
            r#"{"extensions": {"code": "INTERNAL_SERVER_ERROR"}}"#
        )])
        .code(),
        "SHOPIFY_GRAPHQL"
    );
    let partial = Some(json(
        r#"{"orderCreate": {"order": {"id": "gid://shopify/Order/42"}}}"#,
    ));
    assert_eq!(
        graphql_response_error(
            &vec![json(r#"{"extensions": {"code": "ACCESS_DENIED"}}"#)],
            &partial,
            true
        )
        .code(),
        "SHOPIFY_GRAPHQL"
    );
    assert_eq!(
        graphql_response_error(
            &vec![
                json(r#"{"extensions": {"code": "ACCESS_DENIED"}}"#),
                json(r#"{"extensions": {"code": "INTERNAL_SERVER_ERROR"}}"#),
            ],
            &None,
            true
        )
        .code(),
        "SHOPIFY_GRAPHQL"
    );
}

#[test]
fn a_mutation_that_was_denied_without_a_result_is_forbidden() {
    let denied = || vec![json(r#"{"extensions": {"code": "ACCESS_DENIED"}}"#)];
    assert_eq!(
        graphql_response_error(&denied(), &None, true).code(),
        "SHOPIFY_FORBIDDEN"
    );
    assert_eq!(
        graphql_response_error(&denied(), &Some(json(r#"{"orderCreate": null}"#)), true).code(),
        "SHOPIFY_FORBIDDEN"
    );
    assert_eq!(
        graphql_response_error(
            &vec![json(r#"{"extensions": {"code": "INTERNAL"}}"#)],
            &Some(json(r#"{"orderCreate": {}}"#)),
            false
        )
        .message(),
        "Shopify GraphQL 请求失败，请检查权限和请求参数 [INTERNAL]"
    );
}

#[test]
fn graphql_errors_keep_the_codes_of_shopify_beside_the_readable_text() {
    let internal = || vec![json(r#"{"extensions": {"code": "INTERNAL_SERVER_ERROR"}}"#)];
    let error = graphql_error(&internal());
    assert_eq!(error.code(), "SHOPIFY_GRAPHQL");
    assert!(!error.retryable());
    assert_eq!(
        error.message(),
        "Shopify GraphQL 请求失败，请检查权限和请求参数 [INTERNAL_SERVER_ERROR]"
    );
    assert_eq!(
        graphql_response_error(&internal(), &None, true).message(),
        "Shopify 返回了部分创建结果，请核对订单 [INTERNAL_SERVER_ERROR]"
    );
    assert_eq!(
        graphql_error(&vec![
            json(r#"{"extensions": {"code": "INTERNAL"}}"#),
            json(r#"{"message": "no code", "extensions": {"code": 7}}"#),
            json(r#"{"extensions": {"code": "ACCESS_DENIED"}}"#),
        ])
        .message(),
        "Shopify 拒绝访问，请检查所需权限 [INTERNAL, ACCESS_DENIED]"
    );
    assert_eq!(
        graphql_error(&vec![json(
            r#"{"message": "protected customer data", "extensions": {"code": "ACCESS_DENIED"}}"#
        )])
        .message(),
        "此应用尚未获准访问 Shopify 受保护的客户数据 [ACCESS_DENIED]"
    );
    let throttled = throttled_error(&vec![json(r#"{"extensions": {"code": "THROTTLED"}}"#)]);
    assert_eq!(throttled.code(), "SHOPIFY_RATE_LIMITED");
    assert!(throttled.retryable());
    assert_eq!(throttled.message(), "Shopify 请求受限，请稍后重试 [THROTTLED]");
}

#[test]
fn graphql_errors_without_a_code_leave_the_text_as_it_is() {
    assert_eq!(
        graphql_error(&vec![json(r#"{"message": "broken"}"#), json("{}")]).message(),
        "Shopify GraphQL 请求失败，请检查权限和请求参数"
    );
}

#[test]
fn customer_data_denials_are_told_by_message_documentation_and_code() {
    for text in [
        r#"{"message": "This app is NOT APPROVED to use the phoneNumber field. See /customer_data"}"#,
        r#"{"message": "Protected Customer Data: access denied"}"#,
        r#"{"extensions": {"code": "ACCESS_DENIED", "documentation": "https://x/protected-customer-data"}}"#,
        r#"{"message": "protected-customer-data", "extensions": {"code": "ACCESS_DENIED"}}"#,
        r#"{"message": "not approved", "extensions": {"documentation": "customer_data"}}"#,
    ] {
        assert!(is_protected_customer_data_denial(&json(text)), "{text}");
        assert_eq!(
            graphql_error(&vec![json("{}"), json(text)]).code(),
            "CUSTOMER_DATA_RESTRICTED"
        );
    }
    for text in [
        r#"{}"#,
        r#"[]"#,
        r#"{"message": "protected customer data"}"#,
        r#"{"message": "access denied"}"#,
        r#"{"message": 7, "extensions": {"code": "ACCESS_DENIED", "documentation": 7}}"#,
        r#"{"extensions": {"code": "access_denied", "documentation": "customer_data"}}"#,
    ] {
        assert!(!is_protected_customer_data_denial(&json(text)), "{text}");
    }
}

const SOURCE: &str = "orderpilot/00000000-0000-4000-8000-000000000001/1";

fn found(id: &str, name: &str, source: Option<&str>) -> FoundOrder {
    FoundOrder {
        order: CreatedOrder {
            id: id.into(),
            name: name.into(),
        },
        source_identifier: source.map(String::from),
    }
}

fn look_up(nodes: Vec<FoundOrder>, more: bool) -> Result<Option<CreatedOrder>, String> {
    FindOrderData {
        orders: FoundOrders {
            nodes,
            page_info: OrderPageInfo {
                has_next_page: more,
            },
        },
    }
    .into_order(SOURCE)
    .map_err(|error| error.code().to_string())
}

#[test]
fn source_lookup_rejects_mismatches_invalid_results_and_multiple_matches() {
    let valid = || found("gid://shopify/Order/42", "#42", Some(SOURCE));
    assert_eq!(look_up(vec![], false).unwrap(), None);
    assert_eq!(
        look_up(vec![valid()], false).unwrap().unwrap().name,
        "#42"
    );
    assert_eq!(
        look_up(vec![valid(), valid()], false).unwrap_err(),
        "SHOPIFY_SOURCE_AMBIGUOUS"
    );
    assert_eq!(
        look_up(vec![valid()], true).unwrap_err(),
        "SHOPIFY_SOURCE_AMBIGUOUS"
    );
    for invalid in [
        found("gid://shopify/Order/42", "#42", Some("other")),
        found("gid://shopify/Order/42", "#42", None),
        found("", "#42", Some(SOURCE)),
        found("gid://shopify/Order/42", " ", Some(SOURCE)),
    ] {
        assert_eq!(
            look_up(vec![invalid], false).unwrap_err(),
            "SHOPIFY_INVALID_RESPONSE"
        );
    }
}

fn created(order: Option<(&str, &str)>, user_errors: Vec<OrderUserError>) -> CreateOrderData {
    CreateOrderData {
        order_create: CreateOrderPayload {
            order: order.map(|(id, name)| CreatedOrder {
                id: id.into(),
                name: name.into(),
            }),
            user_errors,
        },
    }
}

#[test]
fn order_success_requires_both_a_gid_and_nonempty_name() {
    assert_eq!(
        created(Some(("gid://shopify/Order/42", "#1042")), vec![])
            .into_order()
            .unwrap(),
        CreatedOrder {
            id: "gid://shopify/Order/42".into(),
            name: "#1042".into()
        }
    );
    for order in [
        None,
        Some(("", "#1042")),
        Some(("gid://shopify/Order/42", " ")),
    ] {
        assert_eq!(
            created(order, vec![]).into_order().unwrap_err().code(),
            "SHOPIFY_INVALID_RESPONSE"
        );
    }
}

#[test]
fn definite_order_rejection_preserves_user_error_codes_and_messages() {
    let error = created(
        None,
        vec![
            OrderUserError {
                field: Some(vec!["order".into(), "shippingAddress".into()]),
                message: "Invalid address".into(),
                code: Some("INVALID".into()),
            },
            OrderUserError {
                field: None,
                message: "Variant unavailable".into(),
                code: Some("VARIANT_NOT_FOUND".into()),
            },
        ],
    )
    .into_order()
    .unwrap_err();
    assert_eq!(error.code(), "SHOPIFY_USER_ERROR");
    assert!(error.message().contains("INVALID"));
    assert!(error.message().contains("Invalid address"));
    assert!(error.message().contains("VARIANT_NOT_FOUND"));
    assert!(error.message().contains("Variant unavailable"));
    assert!(!error.retryable());
    assert_eq!(
        error.message(),
        "[INVALID] order.shippingAddress: Invalid address; [VARIANT_NOT_FOUND] : Variant unavailable"
    );
}

#[test]
fn a_complaint_without_a_code_is_unknown() {
    let error = created(
        None,
        vec![OrderUserError {
            field: Some(vec![]),
            message: "No".into(),
            code: None,
        }],
    )
    .into_order()
    .unwrap_err();
    assert_eq!(error.message(), "[UNKNOWN] : No");
}

#[test]
fn mixed_order_and_user_errors_are_ambiguous_not_a_definite_rejection() {
    for order in [
        ("gid://shopify/Order/42", "#1042"),
        ("", "#1042"),
        ("gid://shopify/Order/42", ""),
    ] {
        let error = created(
            Some(order),
            vec![OrderUserError {
                field: Some(vec!["order".into()]),
                message: "Mixed outcome".into(),
                code: Some("INVALID".into()),
            }],
        )
        .into_order()
        .unwrap_err();
        assert_eq!(error.code(), "SHOPIFY_ORDER_OUTCOME_UNCERTAIN");
        assert!(error.message().contains("Mixed outcome"));
        assert!(!error.retryable());
    }
}

fn template(customer: CustomerMode, financial_status: FinancialStatus) -> OrderTemplate {
    OrderTemplate {
        variant_id: "gid://shopify/ProductVariant/123".into(),
        quantity: 2,
        customer,
        financial_status,
    }
}

#[test]
fn order_input_holds_the_line_the_source_and_the_batch() {
    let input = CreateOrderInput::from_template(
        template(CustomerMode::NoCustomer, FinancialStatus::Pending),
        SOURCE,
        false,
    )
    .unwrap();
    assert_eq!(input.line_items().len(), 1);
    assert_eq!(
        input.line_items()[0].variant_id,
        "gid://shopify/ProductVariant/123"
    );
    assert_eq!(input.line_items()[0].quantity, 2);
    assert_eq!(input.financial_status(), FinancialStatus::Pending);
    assert_eq!(input.source_identifier(), SOURCE);
    assert_eq!(input.custom_attributes().len(), 1);
    assert_eq!(input.custom_attributes()[0].key, "OrderPilot-Batch");
    assert_eq!(
        input.custom_attributes()[0].value,
        "00000000-0000-4000-8000-000000000001"
    );
    assert!(input.customer().is_none() && input.email().is_none());
    assert!(input.phone().is_none() && input.shipping_address().is_none());
}

#[test]
fn paid_orders_need_confirmation_before_anything_else_is_looked_at() {
    let paid = || template(CustomerMode::NoCustomer, FinancialStatus::Paid);
    let mut broken = paid();
    broken.quantity = 0;
    assert_eq!(
        CreateOrderInput::from_template(broken.clone(), "bad", false)
            .unwrap_err()
            .code(),
        "PAID_CONFIRMATION_REQUIRED"
    );
    assert_eq!(
        CreateOrderInput::from_template(broken, "bad", true)
            .unwrap_err()
            .code(),
        "INVALID_ORDER_QUANTITY"
    );
    assert_eq!(
        CreateOrderInput::from_template(paid(), "bad", true)
            .unwrap_err()
            .code(),
        "INVALID_SOURCE_IDENTIFIER"
    );
    assert_eq!(
        CreateOrderInput::from_template(paid(), SOURCE, true)
            .unwrap()
            .financial_status(),
        FinancialStatus::Paid
    );
}

#[test]
fn customers_and_addresses_are_sent_only_where_filled() {
    let existing = CustomerMode::Existing {
        customer_id: "gid://shopify/Customer/7".into(),
    };
    let input = CreateOrderInput::from_template(
        template(existing, FinancialStatus::Pending),
        SOURCE,
        false,
    )
    .unwrap();
    assert_eq!(
        input.customer(),
        &Some(CreateCustomer::ToAssociate {
            id: "gid://shopify/Customer/7".into()
        })
    );

    let manual = |customer: ManualCustomer| {
        CreateOrderInput::from_template(
            template(CustomerMode::Manual { customer }, FinancialStatus::Pending),
            SOURCE,
            false,
        )
        .unwrap()
    };
    let blank = manual(ManualCustomer {
        email: Some("  ".into()),
        shipping_address: Some(MailingAddress {
            city: Some("\t".into()),
            ..MailingAddress::default()
        }),
        ..ManualCustomer::default()
    });
    assert!(blank.customer().is_none() && blank.email().is_none());
    assert!(blank.shipping_address().is_none());

    let full = manual(ManualCustomer {
        email: Some(" a@b ".into()),
        first_name: Some("Ann".into()),
        last_name: None,
        phone: Some("1".into()),
        shipping_address: Some(MailingAddress {
            city: Some(" Oslo ".into()),
            zip: Some("".into()),
            ..MailingAddress::default()
        }),
    });
    assert_eq!(full.email().as_deref(), Some("a@b"));
    assert_eq!(full.phone().as_deref(), Some("1"));
    let address = full.shipping_address().as_ref().unwrap();
    assert_eq!(address.address.city.as_deref(), Some("Oslo"));
    assert_eq!(address.address.zip, None);
    assert_eq!(address.first_name.as_deref(), Some("Ann"));
    assert_eq!(address.phone.as_deref(), Some("1"));
    match full.customer() {
        Some(CreateCustomer::ToUpsert(details)) => {
            assert_eq!(details.email.as_deref(), Some("a@b"));
            assert_eq!(details.last_name, None);
        }
        _ => panic!("the customer is to be upserted"),
    }
}

#[test]
fn filling_trims_and_drops() {
    assert_eq!(filled(Some(" x ".into())).as_deref(), Some("x"));
    assert_eq!(filled(Some(" ".into())), None);
    assert_eq!(filled(None), None);
    assert_eq!(filled_address(MailingAddress::default()), None);
}

#[test]
fn failures_of_the_wire_have_their_codes() {
    assert_eq!(network_error(true).code(), "SHOPIFY_TIMEOUT");
    assert_eq!(network_error(false).code(), "SHOPIFY_NETWORK");
    assert_eq!(invalid_response().code(), "SHOPIFY_INVALID_RESPONSE");
    for (status, code, retryable) in [
        (401, "SHOPIFY_UNAUTHORIZED", false),
        (403, "SHOPIFY_FORBIDDEN", false),
        (429, "SHOPIFY_RATE_LIMITED", true),
        (500, "SHOPIFY_SERVER_ERROR", true),
        (599, "SHOPIFY_SERVER_ERROR", true),
        (600, "SHOPIFY_HTTP", false),
        (302, "SHOPIFY_HTTP", false),
    ] {
        assert_eq!(http_error(status).code(), code);
        assert_eq!(http_error(status).retryable(), retryable);
    }
}

#[test]
fn retry_after_is_seconds_or_a_date() {
    let now = (1_445_412_475, 0);
    assert_eq!(delay_asked_at(" 7 ", now), Some(7 * SECOND));
    assert_eq!(delay_asked_at("+7", now), Some(7 * SECOND));
    assert_eq!(
        delay_asked_at("Wed, 21 Oct 2015 07:28:00 GMT", now),
        Some(5 * SECOND)
    );
    assert_eq!(
        delay_asked_at("Wed, 21 Oct 2015 07:28:00 GMT", (1_445_412_475, 250_000_000)),
        Some(4_750_000_000)
    );
    assert_eq!(
        delay_asked_at("Wed, 21 Oct 2015 07:28:00 GMT", (1_445_412_481, 0)),
        Some(0)
    );
    assert_eq!(delay_asked_at("soon", now), None);
    assert_eq!(delay_asked_at("-1", now), None);
    assert_eq!(retry_after_delay("3"), Some(3 * SECOND));
    assert_eq!(
        retry_after_delay("Wed, 21 Oct 2015 07:28:00 GMT"),
        Some(0)
    );
    assert_eq!(retry_after_delay(""), None);
}

#[test]
fn leap_seconds_count_as_the_calendar_crate_counts_them() {
    let moment = |at: (i64, u32)| chrono::DateTime::from_timestamp(at.0, at.1).unwrap();
    // 1483228799 is the last second before midnight; more than a second of nanoseconds is a leap
    // second.
    for date in [
        (1_483_228_799, 1_500_000_000),
        (1_483_228_799, 0),
        (1_483_228_800, 0),
        (1_483_300_000, 5),
    ] {
        for now in [
            (1_483_228_799, 1_200_000_000),
            (1_483_228_798, 0),
            (1_483_228_801, 7),
            (1_483_299_999, 9),
            (-5, 3),
        ] {
            assert_eq!(
                delay_until(date, now),
                (moment(date) - moment(now))
                    .to_std()
                    .unwrap_or_default()
                    .as_nanos(),
                "{date:?} {now:?}"
            );
        }
    }
}

#[test]
fn the_last_of_equal_members_counts() {
    let value = Json::Object(vec![
        ("a".into(), Json::Text("first".into())),
        ("a".into(), Json::Text("second".into())),
        ("b".into(), Json::Object(vec![("c".into(), Json::Text("deep".into()))])),
    ]);
    assert_eq!(text_member(&value, "a"), Some("second"));
    assert_eq!(nested_text(&value, "b", "c"), Some("deep"));
    assert_eq!(nested_text(&value, "a", "c"), None);
    assert!(get(&value, "z").is_none());
    assert!(get(&Json::Null, "a").is_none());
}

#[test]
fn redaction_reaches_every_text_and_key() {
    let value = json(
        r#"{"key shpat": ["shpat", {"x": "a shpat b"}, 7, true, null], "n": 1.5}"#,
    );
    let redacted = redact_token(value, "shpat");
    assert!(!format!("{redacted:?}").contains("shpat"));
    let items = match get(&redacted, "key [REDACTED]") {
        Some(Json::Array(items)) => items,
        _ => panic!("the array stays"),
    };
    assert!(matches!(&items[0], Json::Text(text) if text == "[REDACTED]"));
    assert_eq!(text_member(&items[1], "x"), Some("a [REDACTED] b"));
    assert!(matches!(&items[2], Json::Number(n) if n.as_u64() == Some(7)));
    assert!(matches!(items[3], Json::Bool(true)));
    assert!(matches!(items[4], Json::Null));
    let kept = redact_token(json(r#"["shpat"]"#), "");
    assert!(format!("{kept:?}").contains("shpat"));
}
