//! Brokerage statements: corporate actions of Interactive Brokers reports and the cash flow of an
//! account.

pub mod broker_statement;
pub mod cash_flow;
pub mod currency;
pub mod decimal;
pub mod decimal_laws;
pub mod error;
pub mod error_laws;
pub mod formatting;
pub mod pattern;
pub mod text;
pub mod text_laws;
pub mod time;
pub mod time_laws;
