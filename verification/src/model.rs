//! The ledger's mathematical model: the state is a map from order
//! identifier to [`OrderView`], and each operation is a pair of spec
//! functions, one for the outcome it reports and one for the state it
//! leaves behind. The executable ledger's contracts are stated against
//! these functions, and the laws in [`crate::laws`] are proved of them.

use vstd::prelude::*;

use crate::orders::OrderView;
use crate::orders::PaymentError;

verus! {

/// The ledger state: every order ever paid for, keyed by its identifier.
pub type OrderTable = Map<Seq<char>, OrderView>;

/// Every record in a well-formed ledger carries the key it is filed
/// under, and its completion flag agrees with the settlement rule:
/// an order is completed exactly when it has received its amount.
pub open spec fn table_consistent(orders: OrderTable) -> bool {
    forall|k: Seq<char>| #[trigger] orders.contains_key(k) ==> {
        &&& orders[k].order_id == k
        &&& orders[k].is_completed == (orders[k].received_amount >= orders[k].amount)
    }
}

/// Reading an order: the record when it exists, `OrderNotFound` when it
/// does not. A pure function of the state, with no side effect.
pub open spec fn order_lookup(orders: OrderTable, order_id: Seq<char>) -> Result<
    OrderView,
    PaymentError,
> {
    if orders.contains_key(order_id) {
        Ok(orders[order_id])
    } else {
        Err(PaymentError::OrderNotFound)
    }
}

/// The record created by the first payment for a previously unknown
/// order: the caller becomes the payer, the declared amount is both
/// expected and received, so the order completes at once.
pub open spec fn created_record(
    order_id: Seq<char>,
    order_amount: u128,
    caller: Seq<char>,
) -> OrderView {
    OrderView {
        order_id: order_id,
        payer_id: caller,
        amount: order_amount,
        received_amount: order_amount,
        is_completed: order_amount >= order_amount,
        is_refund: false,
    }
}

/// A further deposit against an existing record: the received amount
/// grows by the deposit and the completion flag is re-evaluated under
/// the settlement rule. Meaningful only when the sum does not exceed
/// `u128::MAX`; the ledger's contracts rule overflow out.
pub open spec fn topped_up_record(r: OrderView, order_amount: u128) -> OrderView {
    OrderView {
        received_amount: (r.received_amount + order_amount) as u128,
        is_completed: r.received_amount + order_amount >= r.amount,
        ..r
    }
}

/// The record after a refund: only the refund flag changes. The received
/// amount is kept as a historical record of the funds moved back.
pub open spec fn refunded_record(r: OrderView) -> OrderView {
    OrderView { is_refund: true, ..r }
}

/// What `pay_order` reports, checked in this order:
/// a zero declared amount is invalid; the attached value must equal the
/// declared amount; an unknown order is created; a refunded order accepts
/// nothing; the order belongs to its first payer; a completed order
/// accepts no overpayment; otherwise the deposit is accepted.
pub open spec fn pay_outcome(
    orders: OrderTable,
    order_id: Seq<char>,
    order_amount: u128,
    caller: Seq<char>,
    attached_value: u128,
) -> Result<(), PaymentError> {
    if order_amount == 0 {
        Err(PaymentError::InvalidAmount)
    } else if attached_value != order_amount {
        Err(PaymentError::AttachedValueMismatch)
    } else if !orders.contains_key(order_id) {
        Ok(())
    } else if orders[order_id].is_refund {
        Err(PaymentError::AlreadyRefunded)
    } else if caller != orders[order_id].payer_id {
        Err(PaymentError::PayerMismatch)
    } else if orders[order_id].is_completed {
        Err(PaymentError::OrderAlreadyCompleted)
    } else {
        Ok(())
    }
}

/// The state `pay_order` leaves behind: on success the order is created
/// or topped up; on any error the state is exactly what it was.
pub open spec fn pay_state(
    orders: OrderTable,
    order_id: Seq<char>,
    order_amount: u128,
    caller: Seq<char>,
    attached_value: u128,
) -> OrderTable {
    if pay_outcome(orders, order_id, order_amount, caller, attached_value) is Ok {
        if orders.contains_key(order_id) {
            orders.insert(order_id, topped_up_record(orders[order_id], order_amount))
        } else {
            orders.insert(order_id, created_record(order_id, order_amount, caller))
        }
    } else {
        orders
    }
}

/// What `refund_order` reports, checked in this order: the record must
/// exist, must not already be refunded, and the caller must be authorized
/// (the payer the order belongs to, or the ledger owner).
pub open spec fn refund_outcome(
    orders: OrderTable,
    owner: Seq<char>,
    order_id: Seq<char>,
    caller: Seq<char>,
) -> Result<(), PaymentError> {
    if !orders.contains_key(order_id) {
        Err(PaymentError::OrderNotFound)
    } else if orders[order_id].is_refund {
        Err(PaymentError::AlreadyRefunded)
    } else if caller != orders[order_id].payer_id && caller != owner {
        Err(PaymentError::Unauthorized)
    } else {
        Ok(())
    }
}

/// The state `refund_order` leaves behind: on success only the refund
/// flag of the named order changes; on any error the state is exactly
/// what it was.
pub open spec fn refund_state(
    orders: OrderTable,
    owner: Seq<char>,
    order_id: Seq<char>,
    caller: Seq<char>,
) -> OrderTable {
    if refund_outcome(orders, owner, order_id, caller) is Ok {
        orders.insert(order_id, refunded_record(orders[order_id]))
    } else {
        orders
    }
}

} // verus!
