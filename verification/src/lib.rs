//! Batch creation of Shopify orders from one frozen template.
pub mod batch;
pub mod domain;
pub mod error;
pub mod identifier;
pub mod json;
pub mod ledger;
pub mod outside;
pub mod redact;
pub mod repository;
pub mod shopify;
pub mod text;
