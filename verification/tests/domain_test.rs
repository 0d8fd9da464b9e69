use orderpilot::domain::{
    normalize_shop_domain, valid_shopify_gid, BatchSize, CustomerMode, FinancialStatus,
    MailingAddress, ManualCustomer, OrderTemplate,
};
use orderpilot::error::{AppError, AppErrorDto};
use orderpilot::identifier::{canonical_uuid, new_uuid, source_batch_id, source_identifier};
use orderpilot::redact::conceal;
use orderpilot::text::{
    characters, contains, decimal_text, join, read_unsigned, replace, trim, white_space,
};

#[test]
fn normalizes_shop_subdomain() {
    assert_eq!(
        normalize_shop_domain("northwind-us").unwrap(),
        "northwind-us.myshopify.com"
    );
}

#[test]
fn rejects_non_shopify_domain() {
    assert_eq!(
        normalize_shop_domain("example.com").unwrap_err().code(),
        "INVALID_SHOP_DOMAIN"
    );
}

#[test]
fn batch_size_accepts_only_one_through_one_hundred() {
    assert!(BatchSize::new(1).is_ok());
    assert!(BatchSize::new(100).is_ok());
    assert!(BatchSize::new(0).is_err());
    assert!(BatchSize::new(101).is_err());
}

fn read_batch_size(json: &str) -> Result<BatchSize, AppError> {
    BatchSize::new(serde_json::from_str::<u16>(json).unwrap())
}

#[test]
fn batch_size_deserialization_rejects_values_outside_the_invariant() {
    for json in ["0", "101", "65535"] {
        assert!(read_batch_size(json).is_err());
    }
}

#[test]
fn batch_size_deserialization_accepts_valid_boundaries() {
    assert_eq!(read_batch_size("1").unwrap().get(), 1);
    assert_eq!(read_batch_size("100").unwrap().get(), 100);
}

#[test]
fn batch_size_error_is_stable() {
    let error = BatchSize::new(0).unwrap_err();
    assert_eq!(error.code(), "INVALID_BATCH_SIZE");
    assert_eq!(error.message(), "批量数量必须为 1 到 100");
    assert!(!error.retryable());
}

#[test]
fn serializes_a_stable_safe_error_dto() {
    let dto = AppErrorDto::from(AppError::validation(
        "INVALID_BATCH_SIZE",
        "批量数量必须为 1 到 100",
    ));
    assert_eq!(dto.code, "INVALID_BATCH_SIZE");
    assert_eq!(dto.message, "批量数量必须为 1 到 100");
    assert_eq!(dto.retryable, false);
}

#[test]
fn error_dto_is_made_from_a_borrowed_error_too() {
    let error = AppError::transient("SHOPIFY_RATE_LIMITED", "wait");
    let dto = AppErrorDto::from(&error);
    assert_eq!(dto.clone(), AppErrorDto::from(error));
    assert!(dto.retryable);
}

#[test]
fn errors_are_redacted_in_code_and_message() {
    let error = AppError::validation("A-shpat-B", "shpat and shpat").redacted("shpat");
    assert_eq!(error.code(), "A-[REDACTED]-B");
    assert_eq!(error.message(), "[REDACTED] and [REDACTED]");
    let kept = AppError::validation("A", "B").redacted("");
    assert_eq!(kept.message(), "B");
}

#[test]
fn redaction_hides_every_occurrence() {
    assert_eq!(
        conceal("shpat_secret shpat_secret", "shpat_secret"),
        "[REDACTED] [REDACTED]"
    );
    assert_eq!(conceal("aaa", "aa"), "[REDACTED]a");
    assert_eq!(conceal("nothing", ""), "nothing");
    // A part of the marker as the secret stands in the marker.
    assert!(conceal("ED", "ED").contains("ED"));
}

#[test]
fn shop_domains_are_trimmed_lowered_and_checked() {
    assert_eq!(
        normalize_shop_domain("  Shop-1.MyShopify.com\u{3000}").unwrap(),
        "shop-1.myshopify.com"
    );
    let longest = "a".repeat(63);
    assert_eq!(
        normalize_shop_domain(&longest).unwrap(),
        format!("{longest}.myshopify.com")
    );
    for raw in [
        "",
        " ",
        ".myshopify.com",
        "-shop",
        "shop-",
        "shop_1",
        "店铺",
        "a.myshopify.com.myshopify.com",
    ] {
        assert!(normalize_shop_domain(raw).is_err(), "{raw} names no shop");
    }
    assert!(normalize_shop_domain(&"a".repeat(64)).is_err());
}

#[test]
fn normalizing_twice_changes_nothing() {
    let once = normalize_shop_domain("Shop-1").unwrap();
    assert_eq!(normalize_shop_domain(&once).unwrap(), once);
}

#[test]
fn spellings_of_a_shop_agree() {
    for raw in [
        "northwind",
        "NORTHWIND",
        "northwind.myshopify.com",
        "NorthWind.MyShopify.COM",
        " \tnorthwind\u{3000}",
        "\nNORTHWIND.MYSHOPIFY.COM ",
    ] {
        assert_eq!(
            normalize_shop_domain(raw).unwrap(),
            "northwind.myshopify.com"
        );
    }
}

fn template() -> OrderTemplate {
    OrderTemplate {
        variant_id: "gid://shopify/ProductVariant/123".into(),
        quantity: 2,
        customer: CustomerMode::NoCustomer,
        financial_status: FinancialStatus::default(),
    }
}

#[test]
fn templates_are_validated_in_order() {
    assert!(template().validate().is_ok());
    for quantity in [0, i32::MAX as u32 + 1] {
        let mut bad = template();
        bad.quantity = quantity;
        bad.variant_id = "".into();
        assert_eq!(bad.validate().unwrap_err().code(), "INVALID_ORDER_QUANTITY");
    }
    let mut bad = template();
    bad.variant_id = "gid://shopify/Product/123".into();
    bad.customer = CustomerMode::Existing {
        customer_id: "1".into(),
    };
    assert_eq!(bad.validate().unwrap_err().code(), "INVALID_VARIANT_ID");
    let mut bad = template();
    bad.customer = CustomerMode::Existing {
        customer_id: "gid://shopify/Customer/0".into(),
    };
    assert_eq!(bad.validate().unwrap_err().code(), "INVALID_CUSTOMER_ID");
    let mut good = template();
    good.quantity = i32::MAX as u32;
    good.customer = CustomerMode::Existing {
        customer_id: "gid://shopify/Customer/7".into(),
    };
    assert!(good.validate().is_ok());
}

#[test]
fn copies_and_defaults_are_plain() {
    let mut customer = ManualCustomer::default();
    assert!(customer.email.is_none() && customer.shipping_address.is_none());
    customer.email = Some("a@b".into());
    customer.shipping_address = Some(MailingAddress::default());
    let mut filled = template();
    filled.customer = CustomerMode::Manual { customer };
    assert_eq!(filled.clone(), filled);
    assert_eq!(FinancialStatus::default(), FinancialStatus::Pending);
}

#[test]
fn gids_need_the_kind_and_a_positive_number() {
    assert!(valid_shopify_gid("gid://shopify/Order/42", "Order"));
    assert!(valid_shopify_gid("gid://shopify/Order/0042", "Order"));
    assert!(valid_shopify_gid(
        "gid://shopify/Order/18446744073709551615",
        "Order"
    ));
    for value in [
        "gid://shopify/Order/",
        "gid://shopify/Order/0",
        "gid://shopify/Order/+1",
        "gid://shopify/Order/18446744073709551616",
        "gid://shopify/Customer/42",
        "42",
    ] {
        assert!(!valid_shopify_gid(value, "Order"), "{value}");
    }
}

#[test]
fn only_the_canonical_text_of_a_uuid_is_canonical() {
    assert!(canonical_uuid("67e55044-10b1-426f-9247-bb680e5fe0c8"));
    for text in [
        "67E55044-10B1-426F-9247-BB680E5FE0C8",
        "67e5504410b1426f9247bb680e5fe0c8",
        "{67e55044-10b1-426f-9247-bb680e5fe0c8}",
        "urn:uuid:67e55044-10b1-426f-9247-bb680e5fe0c8",
        "67e55044-10b1-426f-9247-bb680e5fe0c",
        "67e55044-10b1-426f-9247-bb680e5fe0cg",
        "",
    ] {
        assert!(!canonical_uuid(text), "{text}");
    }
}

#[test]
fn fresh_uuids_are_canonical_and_differ() {
    let first = new_uuid();
    let second = new_uuid();
    assert!(canonical_uuid(&first) && canonical_uuid(&second));
    assert_ne!(first, second);
    assert_eq!(&first[14..15], "4");
    assert!(["8", "9", "a", "b"].contains(&&first[19..20]));
}

#[test]
fn source_identifiers_name_their_batch() {
    let batch = "00000000-0000-4000-8000-000000000001";
    assert_eq!(
        source_identifier(batch, 7),
        "orderpilot/00000000-0000-4000-8000-000000000001/7"
    );
    for sequence in [1, 100] {
        let source = source_identifier(batch, sequence);
        assert_eq!(source_batch_id(&source).unwrap(), batch);
    }
    for source in [
        "orderpilot/00000000-0000-4000-8000-000000000001/0",
        "orderpilot/00000000-0000-4000-8000-000000000001/101",
        "orderpilot/00000000-0000-4000-8000-000000000001/01",
        "orderpilot/00000000-0000-4000-8000-000000000001/+1",
        "orderpilot/00000000-0000-4000-8000-000000000001/65536",
        "orderpilot/00000000-0000-4000-8000-000000000001/1/1",
        "orderpilot/00000000-0000-4000-8000-00000000000A/1",
        "orderpilot/batch-1/1",
        "other/00000000-0000-4000-8000-000000000001/1",
        "",
    ] {
        assert_eq!(
            source_batch_id(source).unwrap_err().code(),
            "INVALID_SOURCE_IDENTIFIER",
            "{source}"
        );
    }
}

#[test]
fn trimming_agrees_with_the_standard_library() {
    for text in ["", "  a b\t\n", "\u{2028}x\u{00a0}", "\u{200b}y", "\u{85}z\u{205f}"] {
        assert_eq!(trim(text), text.trim());
        assert_eq!(trim(trim(text)), trim(text));
    }
    for n in 0..0x3100u32 {
        if let Some(c) = char::from_u32(n) {
            assert_eq!(white_space(c), c.is_whitespace(), "{n:x}");
        }
    }
}

#[test]
fn text_functions_agree_with_the_standard_library() {
    assert_eq!(replace("aXbXc", "X", "--"), "aXbXc".replace("X", "--"));
    assert_eq!(replace("aaaa", "aa", "b"), "aaaa".replace("aa", "b"));
    assert!(contains(&characters("protected customer data"), "customer"));
    assert!(!contains(&characters("protected"), "customer"));
    assert!(contains(&characters(""), ""));
    assert_eq!(join(&vec!["a".into(), "b".into()], "; "), "a; b");
    assert_eq!(join(&vec![], "; "), "");
    for n in [0, 9, 10, 123, u64::MAX] {
        assert_eq!(decimal_text(n), n.to_string());
        assert_eq!(read_unsigned(&n.to_string()), Some(n));
    }
    assert_eq!(read_unsigned("+7"), "+7".parse::<u64>().ok());
    for text in ["", "+", "-1", " 1", "18446744073709551616", "1x"] {
        assert_eq!(read_unsigned(text), text.parse::<u64>().ok(), "{text}");
    }
}
