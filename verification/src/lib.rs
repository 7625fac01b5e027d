//! A non-fungible token contract following the CIS-2 token standard, with
//! CIS-3 style sponsored (permit) updates, written as verified logic over
//! the library's own model of the contract state.

pub mod address;
pub mod collections;
pub mod errors;
pub mod metadata;
pub mod model;
pub mod state;
pub mod types;
pub mod laws;
pub mod snapshot;
pub mod contract;
pub mod payload;
pub mod history;
pub mod parameter;
