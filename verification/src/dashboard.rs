//! The dashboard at `/strategy/crypto-arb`.
pub mod html;
pub mod skips;
pub mod view;
