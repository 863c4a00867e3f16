//! The settings of a node: where they come from and how they are resolved.

pub mod config;
pub mod properties;
pub mod rules;
