//! Foodstuffs New Zealand's Club Plus login.

pub mod auth;
