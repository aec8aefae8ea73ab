//! Core of a subscription-newsletter service: credential checking with an
//! enumeration-resistant fallback hash, Basic-Auth header parsing, double
//! opt-in confirmation tokens, session tracking, and newsletter fan-out with
//! per-recipient fault isolation.

pub mod authentication;
pub mod configuration;
pub mod domain;
pub mod newsletters;
pub mod sessions;
pub mod subscriptions;
pub mod subscriptions_confirm;
