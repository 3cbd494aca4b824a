//! Laws of the ledger, proved of the model in [`crate::model`]. The
//! executable operations in [`crate::ledger`] ensure that they report
//! and leave behind exactly what the model's functions say, so each law
//! proved here holds of every run of the ledger.

use vstd::prelude::*;

use crate::model::OrderTable;
use crate::model::order_lookup;
use crate::model::pay_outcome;
use crate::model::pay_state;
use crate::model::refund_state;
use crate::model::table_consistent;

verus! {

/// First payment: for every valid pair of order identifier and amount
/// with the identifier previously unknown, paying succeeds, and reading
/// the order afterwards returns a record whose payer is the caller,
/// whose received amount is the amount paid, whose completion flag
/// follows the settlement rule, and whose refund flag is clear.
pub proof fn lemma_first_payment(
    orders: OrderTable,
    order_id: Seq<char>,
    order_amount: u128,
    caller: Seq<char>,
)
    requires
        !orders.contains_key(order_id),
        order_amount > 0,
    ensures
        pay_outcome(orders, order_id, order_amount, caller, order_amount) is Ok,
        ({
            let after = pay_state(orders, order_id, order_amount, caller, order_amount);
            let read = order_lookup(after, order_id);
            &&& read is Ok
            &&& read->Ok_0.payer_id == caller
            &&& read->Ok_0.amount == order_amount
            &&& read->Ok_0.received_amount == order_amount
            &&& read->Ok_0.is_completed == (read->Ok_0.received_amount >= read->Ok_0.amount)
            &&& !read->Ok_0.is_refund
        }),
{
}

/// Reads are idempotent: looking an order up is a pure function of the
/// ledger state, so repeated reads with no intervening mutation return
/// identical records.
pub proof fn lemma_reads_idempotent(
    orders_before: OrderTable,
    orders_after: OrderTable,
    order_id: Seq<char>,
)
    requires
        orders_before == orders_after,
    ensures
        order_lookup(orders_before, order_id) == order_lookup(orders_after, order_id),
{
}

/// Payment is monotonic: a payment never decreases any order's received
/// amount, and leaves every refunded record exactly as it was. The
/// hypothesis only keeps the running total of the one order paid into
/// within the machine word, as the ledger's own contract does.
pub proof fn lemma_pay_monotonic(
    orders: OrderTable,
    order_id: Seq<char>,
    order_amount: u128,
    caller: Seq<char>,
    attached_value: u128,
)
    requires
        orders.contains_key(order_id) ==> orders[order_id].received_amount + order_amount
            <= u128::MAX,
    ensures
        ({
            let after = pay_state(orders, order_id, order_amount, caller, attached_value);
            forall|k: Seq<char>| #[trigger] orders.contains_key(k) ==> {
                &&& after.contains_key(k)
                &&& after[k].received_amount >= orders[k].received_amount
                &&& (orders[k].is_refund ==> after[k] == orders[k])
            }
        }),
{
}

/// A refund changes no received amount — the record keeps the history of
/// the funds moved — and leaves every already-refunded record exactly as
/// it was: refund is absorbing.
pub proof fn lemma_refund_keeps_amounts(
    orders: OrderTable,
    owner: Seq<char>,
    order_id: Seq<char>,
    caller: Seq<char>,
)
    ensures
        ({
            let after = refund_state(orders, owner, order_id, caller);
            forall|k: Seq<char>| #[trigger] orders.contains_key(k) ==> {
                &&& after.contains_key(k)
                &&& after[k].received_amount == orders[k].received_amount
                &&& (orders[k].is_refund ==> after[k] == orders[k])
            }
        }),
{
}

/// Both operations preserve the data model's invariants: every record
/// stays filed under its own identifier, and every completion flag
/// agrees with the settlement rule. The hypothesis on the running total
/// is the ledger's own machine-word bound.
pub proof fn lemma_operations_preserve_consistency(
    orders: OrderTable,
    owner: Seq<char>,
    order_id: Seq<char>,
    order_amount: u128,
    caller: Seq<char>,
    attached_value: u128,
)
    requires
        table_consistent(orders),
        orders.contains_key(order_id) ==> orders[order_id].received_amount + order_amount
            <= u128::MAX,
    ensures
        table_consistent(pay_state(orders, order_id, order_amount, caller, attached_value)),
        table_consistent(refund_state(orders, owner, order_id, caller)),
{
}

/// Completion and refund are mutually exclusive per step: no single
/// operation both turns an order's completion flag on and sets its
/// refund flag. A payment never sets a refund flag, and a refund never
/// changes a completion flag.
pub proof fn lemma_completion_refund_exclusive(
    orders: OrderTable,
    owner: Seq<char>,
    order_id: Seq<char>,
    order_amount: u128,
    caller: Seq<char>,
    attached_value: u128,
)
    ensures
        ({
            let after = pay_state(orders, order_id, order_amount, caller, attached_value);
            forall|k: Seq<char>| #[trigger] after.contains_key(k) && after[k].is_refund ==> {
                orders.contains_key(k) && orders[k].is_refund
            }
        }),
        ({
            let after = refund_state(orders, owner, order_id, caller);
            forall|k: Seq<char>| #[trigger] after.contains_key(k) ==> {
                orders.contains_key(k) && after[k].is_completed == orders[k].is_completed
            }
        }),
{
}

} // verus!
