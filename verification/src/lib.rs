//! Read-only query gateway for a wide-column cluster: statement construction,
//! identifier checks, value conversion and paging, with machine-checked contracts.

pub mod cache;
pub mod catalog;
pub mod codec;
pub mod config;
pub mod cql;
pub mod db;
pub mod encoding;
pub mod error;
pub mod ident;
pub mod json;
pub mod paging;
pub mod query;
pub mod safety;
pub mod schema;
pub mod search;
pub mod server;
pub mod text;
pub mod tools;
