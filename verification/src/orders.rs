//! The order record held by the ledger, its mathematical view, and the
//! error taxonomy shared by every ledger operation.

use vstd::prelude::*;

verus! {

/// One order as the ledger stores it.
///
/// A record is created on the first successful payment for its identifier
/// and is never physically deleted: it persists as an auditable entry.
#[derive(Debug, Clone)]
pub struct OrderDetail {
    /// The identifier the order is keyed by, unique across the ledger.
    pub order_id: String,
    /// The account that funded the order; set on the first successful
    /// payment and immutable thereafter.
    pub payer_id: String,
    /// The amount requested for the order, fixed at first-payment time.
    pub amount: u128,
    /// The cumulative amount actually deposited; never decreases, and
    /// never changes once the order is refunded.
    pub received_amount: u128,
    /// True once `received_amount` satisfies `amount`.
    pub is_completed: bool,
    /// True once the order's funds have been returned to the payer;
    /// absorbing: a refunded order accepts no further payment or refund.
    pub is_refund: bool,
}

/// The mathematical image of an [`OrderDetail`]: identifiers as character
/// sequences, amounts as machine integers.
pub ghost struct OrderView {
    pub order_id: Seq<char>,
    pub payer_id: Seq<char>,
    pub amount: u128,
    pub received_amount: u128,
    pub is_completed: bool,
    pub is_refund: bool,
}

impl View for OrderDetail {
    type V = OrderView;

    open spec fn view(&self) -> OrderView {
        OrderView {
            order_id: self.order_id@,
            payer_id: self.payer_id@,
            amount: self.amount,
            received_amount: self.received_amount,
            is_completed: self.is_completed,
            is_refund: self.is_refund,
        }
    }
}

/// Why a ledger operation was rejected. Every error aborts the operation
/// entirely: the ledger state is left exactly as it was before the call.
#[derive(Debug, Clone, Copy, PartialEq, Eq, Structural)]
pub enum PaymentError {
    /// The declared order amount was zero.
    InvalidAmount,
    /// The value transferred with the call does not equal the declared
    /// order amount.
    AttachedValueMismatch,
    /// No record exists for the given order identifier.
    OrderNotFound,
    /// The caller is not the payer the order belongs to.
    PayerMismatch,
    /// The order has already been refunded; refund is absorbing.
    AlreadyRefunded,
    /// The order has already been completed and accepts no overpayment.
    OrderAlreadyCompleted,
    /// The caller may not refund this order: neither its payer nor the
    /// ledger owner.
    Unauthorized,
}

} // verus!
