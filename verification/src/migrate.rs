//! Migrations of stores.

pub mod hermes;
