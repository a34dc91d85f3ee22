//! Shared API building blocks: RFC 9457 problem details, entity tags,
//! authorization headers, cache directives, health reports and more.

pub mod text;
pub mod common;
pub mod has_id;
pub mod header_id;
pub mod uuid;
pub mod error;
pub mod etag;
pub mod header;
pub mod audit;
pub mod encoding;
pub mod auth;
pub mod cache;
pub mod content_type;
pub mod correlation_id;
pub mod idempotency;
pub mod cors;
pub mod deprecated;
pub mod health;
pub mod bulk;
pub mod connect;
pub mod cursor;
pub mod axum_extractors;
