use orderpilot::identifier::canonical_uuid;
use orderpilot::repository::{
    database_error, escape_like, new_store_change, new_store_row, require_changed, search_pattern,
    store_change, store_not_found, store_row, NewStore, UpdateStore,
};

fn new_store(domain: &str) -> NewStore {
    NewStore {
        display_name: "美国主店".into(),
        shop_domain: domain.into(),
        access_token: "shpat_secret".into(),
    }
}

#[test]
fn a_new_store_gets_a_fresh_identifier_and_the_full_domain() {
    let row = new_store_row(new_store("northwind-us")).ok().unwrap();
    assert!(canonical_uuid(&row.id));
    assert_eq!(row.shop_domain, "northwind-us.myshopify.com");
    assert_eq!(row.display_name, "美国主店");
    assert_eq!(row.access_token, "shpat_secret");
    assert_eq!(row.created_at, row.updated_at);
    assert!(row.created_at.contains('T') && row.created_at.ends_with("+00:00"));
}

#[test]
fn store_rows_hold_what_they_are_given() {
    let row = store_row(new_store("NORTHWIND-US.MYSHOPIFY.COM"), "id".into(), "now")
        .ok()
        .unwrap();
    assert_eq!(row.id, "id");
    assert_eq!(row.shop_domain, "northwind-us.myshopify.com");
    assert_eq!(row.created_at, "now");
    assert_eq!(row.updated_at, "now");
    let error = store_row(new_store("example.com"), "id".into(), "now")
        .err()
        .unwrap();
    assert_eq!(error.code(), "INVALID_SHOP_DOMAIN");
    assert!(new_store_row(new_store("example.com")).is_err());
}

#[test]
fn store_changes_keep_the_token_where_none_is_given() {
    let input = |domain: &str, token: Option<String>| UpdateStore {
        display_name: "加拿大店".into(),
        shop_domain: domain.into(),
        access_token: token,
    };
    let change = store_change(input("northwind-ca.myshopify.com", None), "now")
        .ok()
        .unwrap();
    assert_eq!(change.shop_domain, "northwind-ca.myshopify.com");
    assert_eq!(change.display_name, "加拿大店");
    assert_eq!(change.access_token, None);
    assert_eq!(change.updated_at, "now");
    let change = new_store_change(input("northwind-ca", Some("shpat_new".into())))
        .ok()
        .unwrap();
    assert_eq!(change.access_token.as_deref(), Some("shpat_new"));
    assert_eq!(
        store_change(input("", None), "now").err().unwrap().code(),
        "INVALID_SHOP_DOMAIN"
    );
    assert!(new_store_change(input("", None)).is_err());
}

#[test]
fn like_wildcards_are_escaped_in_search_patterns() {
    assert_eq!(search_pattern("%_"), "%\\%\\_%");
    assert_eq!(search_pattern("  northwind "), "%northwind%");
    assert_eq!(search_pattern(""), "%%");
    assert_eq!(escape_like("100%_\\"), "100\\%\\_\\\\");
}

#[test]
fn missing_stores_and_failed_storage_have_their_errors() {
    assert!(require_changed(1).is_ok());
    let error = require_changed(0).unwrap_err();
    assert_eq!(error.code(), "STORE_NOT_FOUND");
    assert_eq!(error.message(), store_not_found().message());
    assert_eq!(database_error().code(), "DATABASE_ERROR");
    assert!(!database_error().retryable());
}
