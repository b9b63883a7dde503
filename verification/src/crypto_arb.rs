//! The combined strategy: tail-end, two-sided and confirmed trades in one state of its own.
pub mod events;
pub mod html;
pub mod rules;
pub mod strategy;
pub mod types;
pub mod view;
