//! The DNS resolver: names, records, rules, filtering, the cache, and which
//! source answers a query.
pub mod cache;
pub mod check;
pub mod check_domain;
pub mod domain;
pub mod error;
pub mod filter;
pub mod handler;
pub mod local;
pub mod outside;
pub mod planner;
pub mod provider_profile;
pub mod request;
pub mod resolve;
pub mod runtime;
pub mod server;
pub mod types;
