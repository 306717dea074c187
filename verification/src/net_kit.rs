//! What every storefront client shares: the clock tokens are judged by, the
//! credential store's naming, where an unattended sign-in gets its password,
//! and the words for an HTTP failure.

pub mod http;
pub mod jwt;
pub mod password;
pub mod secrets;
