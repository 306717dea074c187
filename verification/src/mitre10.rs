//! Mitre 10 New Zealand: SAP Commerce behind Cloudflare, with an OAuth
//! sign-in and its search run by Algolia.

pub mod endpoints;
pub mod session;
pub mod error;
pub mod auth;
pub mod domain;
pub mod catalogue;
pub mod search;
pub mod wire;
pub mod client;
pub mod detail;
pub mod listing;
pub mod records;
pub mod http;
