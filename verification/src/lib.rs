//! Inventory and sales backend core: the sale lifecycle, the owner-scoped
//! relational store, and the reconciliation of product/price links.

pub mod errors;
pub mod handlers;
pub mod models;
pub mod store;
pub mod utils;
