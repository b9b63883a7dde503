//! What the strategies reason about: markets with their reference price, positions and
//! orders, position lifecycles, and performance figures.
pub mod lifecycle;
pub mod market;
pub mod position;
pub mod telemetry;
