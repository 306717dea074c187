//! Kmart New Zealand: what the commerce gateway's answers are turned into.
//!
//! The gateway hands back the whole merchandising record for a cart, a
//! wishlist or a stock check; this module keeps what a shopper is shown, and
//! decides what each GraphQL answer comes to.

pub mod error;
pub mod wire;
pub mod domain;
pub mod session;
pub mod client;
