//! Activity reports of Interactive Brokers.

use vstd::prelude::*;

use crate::broker_statement::BrokerStatement;

pub mod commit_laws;
pub mod common;
pub mod corporate_actions;
pub mod laws;
pub mod parse_laws;
pub mod record_laws;

verus! {

/// Reads a report into a statement.
pub struct StatementParser {
    pub statement: BrokerStatement,
}

} // verus!
