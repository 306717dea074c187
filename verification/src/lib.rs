//! Verified client libraries for New Zealand shopping storefronts.
//!
//! Each storefront's module holds what its client computes -- the URLs it
//! asks for, the cookies and tokens it keeps, the refusals it recognises and
//! the text it reads answers out of -- with contracts stated over the
//! characters involved. Sending requests is left to the caller.

pub mod text;
pub mod json;
pub mod ordered;
pub mod farmers;
pub mod net_kit;
pub mod mitre10;
pub mod wwnz;
pub mod kmart;
pub mod fsnz;
