//! The cash flow of an account.

pub mod balance_laws;
pub mod entry_laws;
pub mod laws;
pub mod mapper;
pub mod money_laws;
pub mod order;
pub mod order_laws;
