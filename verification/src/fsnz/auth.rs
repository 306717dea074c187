//! Signing in to Club Plus, and keeping what it gives.

pub mod session;
