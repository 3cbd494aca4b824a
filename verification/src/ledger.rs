//! The executable order ledger. Records live in a vector with unique
//! identifiers; the ledger's view abstracts that vector into the keyed
//! table of [`crate::model`], and every operation's contract is stated
//! against the model's outcome and state functions.

use vstd::prelude::*;

use crate::model::OrderTable;
use crate::model::created_record;
use crate::model::order_lookup;
use crate::model::pay_outcome;
use crate::model::pay_state;
use crate::model::refund_outcome;
use crate::model::refund_state;
use crate::model::refunded_record;
use crate::model::table_consistent;
use crate::model::topped_up_record;
use crate::orders::OrderDetail;
use crate::orders::OrderView;
use crate::orders::PaymentError;

verus! {

/// The abstract state of a ledger: its owner (the operator identity
/// allowed to refund any order) and the table of orders.
pub ghost struct LedgerView {
    pub owner: Seq<char>,
    pub orders: OrderTable,
}

/// The keyed table that a sequence of records denotes: each record filed
/// under its own identifier, later records taking precedence. Under the
/// ledger's uniqueness invariant no two records share an identifier, so
/// precedence never matters.
pub closed spec fn table_of(s: Seq<OrderDetail>) -> OrderTable
    decreases s.len(),
{
    if s.len() == 0 {
        Map::empty()
    } else {
        table_of(s.drop_last()).insert(s.last().order_id@, s.last()@)
    }
}

/// No two records in the sequence share an order identifier.
pub closed spec fn ids_unique(s: Seq<OrderDetail>) -> bool {
    forall|i: int, j: int|
        0 <= i < j < s.len() ==> (#[trigger] s[i].order_id@) != (#[trigger] s[j].order_id@)
}

/// A key is in the table exactly when some record in the sequence
/// carries it.
proof fn lemma_table_of_contains(s: Seq<OrderDetail>)
    ensures
        forall|k: Seq<char>|
            #![auto]
            table_of(s).contains_key(k) <==> (exists|i: int|
                0 <= i < s.len() && s[i].order_id@ == k),
    decreases s.len(),
{
    if s.len() > 0 {
        lemma_table_of_contains(s.drop_last());
        assert forall|k: Seq<char>| #![auto] table_of(s).contains_key(k) implies (exists|i: int|
            0 <= i < s.len() && s[i].order_id@ == k) by {
            if k == s.last().order_id@ {
                assert(s[s.len() - 1].order_id@ == k);
            } else {
                assert(table_of(s.drop_last()).contains_key(k));
                let i = choose|i: int|
                    0 <= i < s.drop_last().len() && s.drop_last()[i].order_id@ == k;
                assert(s.drop_last()[i] == s[i]);
                assert(s[i].order_id@ == k);
            }
        }
        assert forall|k: Seq<char>|
            #![auto]
            (exists|i: int| 0 <= i < s.len() && s[i].order_id@ == k) implies table_of(
            s,
        ).contains_key(k) by {
            let i = choose|i: int| 0 <= i < s.len() && s[i].order_id@ == k;
            assert(table_of(s) == table_of(s.drop_last()).insert(s.last().order_id@, s.last()@));
            if i < s.len() - 1 {
                assert(s.drop_last()[i].order_id@ == k);
                assert(table_of(s.drop_last()).contains_key(k));
            } else {
                assert(k == s.last().order_id@);
            }
        }
    }
}

/// With unique identifiers, the table files record `i` under its own
/// identifier, unchanged.
proof fn lemma_table_of_at(s: Seq<OrderDetail>, i: int)
    requires
        ids_unique(s),
        0 <= i < s.len(),
    ensures
        table_of(s).contains_key(s[i].order_id@),
        table_of(s)[s[i].order_id@] == s[i]@,
    decreases s.len(),
{
    if i < s.len() - 1 {
        assert(ids_unique(s.drop_last()));
        lemma_table_of_at(s.drop_last(), i);
        assert(s.drop_last()[i] == s[i]);
        assert(s[i].order_id@ != s.last().order_id@);
    }
}

/// Replacing record `i` by one with the same identifier re-files that
/// identifier and leaves every other entry of the table alone.
proof fn lemma_table_of_update(s: Seq<OrderDetail>, i: int, x: OrderDetail)
    requires
        ids_unique(s),
        0 <= i < s.len(),
        x.order_id@ == s[i].order_id@,
    ensures
        table_of(s.update(i, x)) == table_of(s).insert(x.order_id@, x@),
    decreases s.len(),
{
    let t = s.update(i, x);
    if i == s.len() - 1 {
        assert(t.drop_last() =~= s.drop_last());
        assert(table_of(t) == table_of(s.drop_last()).insert(x.order_id@, x@));
        assert(table_of(s).insert(x.order_id@, x@) =~= table_of(s.drop_last()).insert(
            x.order_id@,
            x@,
        ));
    } else {
        assert(ids_unique(s.drop_last()));
        assert(s.drop_last()[i] == s[i]);
        lemma_table_of_update(s.drop_last(), i, x);
        assert(t.drop_last() =~= s.drop_last().update(i, x));
        assert(t.last() == s.last());
        assert(table_of(t) == table_of(s.drop_last()).insert(x.order_id@, x@).insert(
            s.last().order_id@,
            s.last()@,
        ));
        assert(s[i].order_id@ != s.last().order_id@);
        assert(table_of(s.drop_last()).insert(x.order_id@, x@).insert(
            s.last().order_id@,
            s.last()@,
        ) =~= table_of(s.drop_last()).insert(s.last().order_id@, s.last()@).insert(
            x.order_id@,
            x@,
        ));
    }
}

/// Appending a record with a fresh identifier keeps identifiers unique.
proof fn lemma_unique_after_push(s: Seq<OrderDetail>, x: OrderDetail)
    requires
        ids_unique(s),
        forall|j: int| 0 <= j < s.len() ==> (#[trigger] s[j]).order_id@ != x.order_id@,
    ensures
        ids_unique(s.push(x)),
{
    let t = s.push(x);
    assert forall|a: int, b: int| 0 <= a < b < t.len() implies (#[trigger] t[a].order_id@) != (
    #[trigger] t[b].order_id@) by {
        if b < s.len() {
            assert(s[a].order_id@ != s[b].order_id@);
        } else {
            assert(s[a].order_id@ != x.order_id@);
        }
    }
}

/// Replacing a record by one with the same identifier keeps identifiers
/// unique.
proof fn lemma_unique_after_update(s: Seq<OrderDetail>, i: int, x: OrderDetail)
    requires
        ids_unique(s),
        0 <= i < s.len(),
        x.order_id@ == s[i].order_id@,
    ensures
        ids_unique(s.update(i, x)),
{
    let t = s.update(i, x);
    assert forall|a: int, b: int| 0 <= a < b < t.len() implies (#[trigger] t[a].order_id@) != (
    #[trigger] t[b].order_id@) by {
        assert(t[a].order_id@ == s[a].order_id@);
        assert(t[b].order_id@ == s[b].order_id@);
    }
}

/// The payment-order ledger.
pub struct Ledger {
    owner: String,
    orders: Vec<OrderDetail>,
}

impl View for Ledger {
    type V = LedgerView;

    closed spec fn view(&self) -> LedgerView {
        LedgerView { owner: self.owner@, orders: table_of(self.orders@) }
    }
}

impl Ledger {
    /// Well-formedness: identifiers are unique, every record carries the
    /// identifier it is filed under, and every completion flag agrees
    /// with the settlement rule. Constructors establish it and every
    /// operation preserves it.
    pub closed spec fn wf(&self) -> bool {
        &&& ids_unique(self.orders@)
        &&& forall|i: int|
            0 <= i < self.orders@.len() ==> {
                let r = (#[trigger] self.orders@[i])@;
                r.is_completed == (r.received_amount >= r.amount)
            }
    }

    /// An empty ledger owned by `owner`.
    pub fn new(owner: String) -> (l: Ledger)
        ensures
            l.wf(),
            l@.owner == owner@,
            l@.orders == OrderTable::empty(),
    {
        Ledger { owner, orders: Vec::new() }
    }

    /// In a well-formed ledger the abstract table is consistent: every
    /// record carries the key it is filed under and its completion flag
    /// agrees with the settlement rule.
    pub proof fn lemma_wf_consistent(&self)
        requires
            self.wf(),
        ensures
            table_consistent(self@.orders),
    {
        lemma_table_of_contains(self.orders@);
        assert forall|k: Seq<char>| #[trigger] self@.orders.contains_key(k) implies {
            &&& self@.orders[k].order_id == k
            &&& self@.orders[k].is_completed == (self@.orders[k].received_amount
                >= self@.orders[k].amount)
        } by {
            let i = choose|i: int| 0 <= i < self.orders@.len() && self.orders@[i].order_id@ == k;
            lemma_table_of_at(self.orders@, i);
        }
    }

    /// The position of the record for `order_id`, if any.
    fn find_index(&self, order_id: &String) -> (r: Option<usize>)
        ensures
            match r {
                Some(i) => i < self.orders@.len() && self.orders@[i as int].order_id@
                    == order_id@,
                None => forall|j: int|
                    0 <= j < self.orders@.len() ==> (#[trigger] self.orders@[j]).order_id@
                        != order_id@,
            },
    {
        let n = self.orders.len();
        let mut i: usize = 0;
        while i < n
            invariant
                n == self.orders.len(),
                i <= n,
                forall|j: int|
                    0 <= j < i ==> (#[trigger] self.orders@[j]).order_id@ != order_id@,
            decreases n - i,
        {
            if self.orders[i].order_id == *order_id {
                return Some(i);
            }
            i += 1;
        }
        None
    }

    /// The full record for `order_id`: a pure read, failing with
    /// `OrderNotFound` exactly when the ledger holds no such order.
    pub fn get_order_detail(&self, order_id: &String) -> (r: Result<&OrderDetail, PaymentError>)
        requires
            self.wf(),
        ensures
            ({
                let l = order_lookup(self@.orders, order_id@);
                match r {
                    Ok(d) => l == Ok::<OrderView, PaymentError>(d@),
                    Err(e) => l == Err::<OrderView, PaymentError>(e),
                }
            }),
            r is Ok <==> self@.orders.contains_key(order_id@),
    {
        proof {
            lemma_table_of_contains(self.orders@);
        }
        match self.find_index(order_id) {
            Some(i) => {
                proof {
                    lemma_table_of_at(self.orders@, i as int);
                }
                Ok(&self.orders[i])
            },
            None => Err(PaymentError::OrderNotFound),
        }
    }

    /// Accept a deposit of `order_amount` against `order_id` from
    /// `caller`, with `attached_value` actually transferred alongside
    /// the call. A previously unknown order is created, owned by its
    /// first payer and completed at once under the settlement rule; a
    /// known order must be unrefunded, owned by the caller, and not yet
    /// completed. On any error the ledger is left exactly as it was.
    ///
    /// The order identifier must be non-empty, and the bound on
    /// `received_amount + order_amount` only keeps the running total
    /// within the machine word; it is trivially met whenever `order_id`
    /// is previously unknown.
    pub fn pay_order(
        &mut self,
        order_id: String,
        order_amount: u128,
        caller: String,
        attached_value: u128,
    ) -> (r: Result<(), PaymentError>)
        requires
            old(self).wf(),
            order_id@.len() > 0,
            old(self)@.orders.contains_key(order_id@) ==> old(self)@.orders[order_id@].received_amount
                + order_amount <= u128::MAX,
        ensures
            final(self).wf(),
            final(self)@.owner == old(self)@.owner,
            r == pay_outcome(old(self)@.orders, order_id@, order_amount, caller@, attached_value),
            final(self)@.orders == pay_state(
                old(self)@.orders,
                order_id@,
                order_amount,
                caller@,
                attached_value,
            ),
    {
        let ghost s0 = self.orders@;
        let ghost oid = order_id@;
        let ghost cid = caller@;
        if order_amount == 0 {
            return Err(PaymentError::InvalidAmount);
        }
        if attached_value != order_amount {
            return Err(PaymentError::AttachedValueMismatch);
        }
        proof {
            lemma_table_of_contains(s0);
        }
        match self.find_index(&order_id) {
            None => {
                let rec = OrderDetail {
                    order_id,
                    payer_id: caller,
                    amount: order_amount,
                    received_amount: order_amount,
                    is_completed: true,
                    is_refund: false,
                };
                let ghost rv = rec@;
                proof {
                    lemma_unique_after_push(s0, rec);
                }
                self.orders.push(rec);
                proof {
                    assert(!table_of(s0).contains_key(oid));
                    assert(rv == created_record(oid, order_amount, cid));
                    assert(self.orders@.drop_last() =~= s0);
                    assert(self.orders@.last()@ == rv);
                    assert(table_of(self.orders@) == table_of(s0).insert(oid, rv));
                }
                Ok(())
            },
            Some(i) => {
                proof {
                    lemma_table_of_at(s0, i as int);
                }
                let existing = &self.orders[i];
                if existing.is_refund {
                    return Err(PaymentError::AlreadyRefunded);
                }
                if !(caller == existing.payer_id) {
                    return Err(PaymentError::PayerMismatch);
                }
                if existing.is_completed {
                    return Err(PaymentError::OrderAlreadyCompleted);
                }
                let new_received = existing.received_amount + order_amount;
                let updated = OrderDetail {
                    order_id: existing.order_id.clone(),
                    payer_id: existing.payer_id.clone(),
                    amount: existing.amount,
                    received_amount: new_received,
                    is_completed: new_received >= existing.amount,
                    is_refund: existing.is_refund,
                };
                let ghost uv = updated@;
                proof {
                    assert(uv == topped_up_record(table_of(s0)[oid], order_amount));
                    lemma_table_of_update(s0, i as int, updated);
                    lemma_unique_after_update(s0, i as int, updated);
                }
                self.orders[i] = updated;
                Ok(())
            },
        }
    }

    /// Refund `order_id` on behalf of `caller`: the order must exist,
    /// must not already be refunded, and the caller must be either the
    /// payer the order belongs to or the ledger owner. On success only
    /// the refund flag changes — the received amount is kept as a
    /// historical record — and the payer together with the amount to
    /// hand back is returned, for the caller's value-transfer
    /// collaborator to move the funds. On any error the ledger is left
    /// exactly as it was.
    pub fn refund_order(&mut self, order_id: &String, caller: &String) -> (r: Result<
        (String, u128),
        PaymentError,
    >)
        requires
            old(self).wf(),
        ensures
            final(self).wf(),
            final(self)@.owner == old(self)@.owner,
            ({
                let outcome = refund_outcome(old(self)@.orders, old(self)@.owner, order_id@, caller@);
                match r {
                    Ok(t) => outcome is Ok && t.0@ == old(self)@.orders[order_id@].payer_id && t.1
                        == old(self)@.orders[order_id@].received_amount,
                    Err(e) => outcome == Err::<(), PaymentError>(e),
                }
            }),
            final(self)@.orders == refund_state(
                old(self)@.orders,
                old(self)@.owner,
                order_id@,
                caller@,
            ),
    {
        let ghost s0 = self.orders@;
        let ghost oid = order_id@;
        proof {
            lemma_table_of_contains(s0);
        }
        match self.find_index(order_id) {
            None => Err(PaymentError::OrderNotFound),
            Some(i) => {
                proof {
                    lemma_table_of_at(s0, i as int);
                }
                let existing = &self.orders[i];
                if existing.is_refund {
                    return Err(PaymentError::AlreadyRefunded);
                }
                if !(*caller == existing.payer_id) && !(*caller == self.owner) {
                    return Err(PaymentError::Unauthorized);
                }
                let payer = existing.payer_id.clone();
                let refunded_amount = existing.received_amount;
                let updated = OrderDetail {
                    order_id: existing.order_id.clone(),
                    payer_id: existing.payer_id.clone(),
                    amount: existing.amount,
                    received_amount: existing.received_amount,
                    is_completed: existing.is_completed,
                    is_refund: true,
                };
                let ghost uv = updated@;
                proof {
                    assert(uv == refunded_record(table_of(s0)[oid]));
                    lemma_table_of_update(s0, i as int, updated);
                    lemma_unique_after_update(s0, i as int, updated);
                }
                self.orders[i] = updated;
                Ok((payer, refunded_amount))
            },
        }
    }

    /// The owner identity the ledger was created with: the operator
    /// allowed to refund any order.
    pub fn owner_id(&self) -> (r: &String)
        ensures
            r@ == self@.owner,
    {
        &self.owner
    }
}

} // verus!
