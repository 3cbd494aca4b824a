//! A verified payment-order ledger.
//!
//! The ledger maps order identifiers to order records, accepts deposits
//! against named orders, records payer and received amounts, and tracks
//! completion and refund state. Value custody and transport are left to the
//! caller: the ledger only records amounts and authorizes transitions.
//!
//! Two policies are fixed here and stated in the contracts: an order is
//! completed exactly when its received amount reaches its expected amount,
//! and a completed order accepts no further deposits — overpayment is
//! rejected rather than capped or credited. Refund is absorbing: a refunded
//! order accepts neither deposits nor a second refund, and keeps its
//! received amount as a record of the funds moved.

pub mod laws;
pub mod ledger;
pub mod model;
pub mod orders;
