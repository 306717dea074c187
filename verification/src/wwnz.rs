//! Woolworths New Zealand.

pub mod error;
pub mod client;
