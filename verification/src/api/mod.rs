//! Values of the HTTP contract.

pub mod health;
pub mod files;
pub mod error;
pub mod search;
