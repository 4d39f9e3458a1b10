//! The gateway: which upstream a request or a TLS connection goes to, how the
//! request is changed on its way, and what a client is told on failure.
pub mod balance;
pub mod domains;
pub mod error;
pub mod failure;
pub mod fields;
pub mod headers;
pub mod hello;
pub mod outside;
pub mod path;
pub mod proxy;
pub mod route;
pub mod rules;
pub mod sni;
