//! Data carried by message buttons.

pub mod none;
