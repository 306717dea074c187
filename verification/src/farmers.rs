//! Farmers New Zealand: an Intershop storefront behind Akamai's bot manager,
//! with its search run by Constructor.io.

pub mod endpoints;
pub mod session;
pub mod stores;
pub mod search;
pub mod error;
pub mod domain;
pub mod wire;
pub mod extract;
pub mod http;
pub mod auth;
pub mod client;
