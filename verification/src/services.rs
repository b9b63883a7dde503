//! Operations on the shared state, by concern.
pub mod feed;
pub mod market;
pub mod observability;
pub mod order;
pub mod position;
pub mod pricing;
