//! Tail-end strategy: high-confidence trades shortly before a market ends.
pub mod entry;
pub mod events;
pub mod exit;
pub mod order_events;
pub mod order_routing;
