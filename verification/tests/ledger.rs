//! Scenario and error-path tests for the payment-order ledger.

use order_ledger::ledger::Ledger;
use order_ledger::orders::PaymentError;

fn owner() -> String {
    "owner".to_string()
}

/// A fresh ledger with one completed order: `order_1`, paid by `alice`
/// with 1_000_000.
fn ledger_after_first_payment() -> Ledger {
    let mut l = Ledger::new(owner());
    let r = l.pay_order(
        "order_1".to_string(),
        1_000_000,
        "alice".to_string(),
        1_000_000,
    );
    assert!(r.is_ok());
    l
}

#[test]
fn first_payment_creates_completed_order() {
    let l = ledger_after_first_payment();
    let d = l.get_order_detail(&"order_1".to_string()).unwrap();
    assert_eq!(d.order_id, "order_1");
    assert_eq!(d.payer_id, "alice");
    assert_eq!(d.amount, 1_000_000);
    assert_eq!(d.received_amount, 1_000_000);
    assert!(d.is_completed);
    assert!(!d.is_refund);
}

#[test]
fn second_payer_is_rejected_and_state_unchanged() {
    let mut l = ledger_after_first_payment();
    let r = l.pay_order("order_1".to_string(), 500, "bob".to_string(), 500);
    assert_eq!(r, Err(PaymentError::PayerMismatch));
    let d = l.get_order_detail(&"order_1".to_string()).unwrap();
    assert_eq!(d.payer_id, "alice");
    assert_eq!(d.received_amount, 1_000_000);
    assert!(d.is_completed);
    assert!(!d.is_refund);
}

#[test]
fn unknown_order_read_fails() {
    let l = Ledger::new(owner());
    let r = l.get_order_detail(&"unknown_order".to_string());
    assert!(matches!(r, Err(PaymentError::OrderNotFound)));
}

#[test]
fn refund_then_pay_is_rejected() {
    let mut l = ledger_after_first_payment();
    let r = l.refund_order(&"order_1".to_string(), &"alice".to_string());
    let (payer, amount) = r.unwrap();
    assert_eq!(payer, "alice");
    assert_eq!(amount, 1_000_000);
    let d = l.get_order_detail(&"order_1".to_string()).unwrap();
    assert!(d.is_refund);
    let r2 = l.pay_order("order_1".to_string(), 1, "alice".to_string(), 1);
    assert_eq!(r2, Err(PaymentError::AlreadyRefunded));
}

#[test]
fn reads_are_idempotent() {
    let l = ledger_after_first_payment();
    let first = l.get_order_detail(&"order_1".to_string()).unwrap().clone();
    let second = l.get_order_detail(&"order_1".to_string()).unwrap();
    assert_eq!(first.order_id, second.order_id);
    assert_eq!(first.payer_id, second.payer_id);
    assert_eq!(first.amount, second.amount);
    assert_eq!(first.received_amount, second.received_amount);
    assert_eq!(first.is_completed, second.is_completed);
    assert_eq!(first.is_refund, second.is_refund);
}

#[test]
fn zero_amount_is_invalid() {
    let mut l = Ledger::new(owner());
    let r = l.pay_order("order_1".to_string(), 0, "alice".to_string(), 0);
    assert_eq!(r, Err(PaymentError::InvalidAmount));
    assert!(matches!(
        l.get_order_detail(&"order_1".to_string()),
        Err(PaymentError::OrderNotFound)
    ));
}

#[test]
fn attached_value_must_equal_declared_amount() {
    let mut l = Ledger::new(owner());
    let r = l.pay_order("order_1".to_string(), 100, "alice".to_string(), 99);
    assert_eq!(r, Err(PaymentError::AttachedValueMismatch));
    let r2 = l.pay_order("order_1".to_string(), 100, "alice".to_string(), 101);
    assert_eq!(r2, Err(PaymentError::AttachedValueMismatch));
    assert!(matches!(
        l.get_order_detail(&"order_1".to_string()),
        Err(PaymentError::OrderNotFound)
    ));
}

#[test]
fn completed_order_accepts_no_overpayment() {
    let mut l = ledger_after_first_payment();
    let r = l.pay_order("order_1".to_string(), 5, "alice".to_string(), 5);
    assert_eq!(r, Err(PaymentError::OrderAlreadyCompleted));
    let d = l.get_order_detail(&"order_1".to_string()).unwrap();
    assert_eq!(d.received_amount, 1_000_000);
}

#[test]
fn refund_of_unknown_order_fails() {
    let mut l = Ledger::new(owner());
    let r = l.refund_order(&"order_1".to_string(), &"alice".to_string());
    assert_eq!(r, Err(PaymentError::OrderNotFound));
}

#[test]
fn refund_twice_is_rejected() {
    let mut l = ledger_after_first_payment();
    l.refund_order(&"order_1".to_string(), &"alice".to_string())
        .unwrap();
    let r = l.refund_order(&"order_1".to_string(), &"alice".to_string());
    assert_eq!(r, Err(PaymentError::AlreadyRefunded));
}

#[test]
fn stranger_may_not_refund() {
    let mut l = ledger_after_first_payment();
    let r = l.refund_order(&"order_1".to_string(), &"bob".to_string());
    assert_eq!(r, Err(PaymentError::Unauthorized));
    let d = l.get_order_detail(&"order_1".to_string()).unwrap();
    assert!(!d.is_refund);
}

#[test]
fn owner_may_refund_any_order() {
    let mut l = ledger_after_first_payment();
    let (payer, amount) = l
        .refund_order(&"order_1".to_string(), &"owner".to_string())
        .unwrap();
    assert_eq!(payer, "alice");
    assert_eq!(amount, 1_000_000);
    assert!(l.get_order_detail(&"order_1".to_string()).unwrap().is_refund);
}

#[test]
fn refund_keeps_received_amount() {
    let mut l = ledger_after_first_payment();
    l.refund_order(&"order_1".to_string(), &"alice".to_string())
        .unwrap();
    let d = l.get_order_detail(&"order_1".to_string()).unwrap();
    assert_eq!(d.received_amount, 1_000_000);
    assert!(d.is_refund);
}

#[test]
fn refund_does_not_change_completion() {
    let mut l = ledger_after_first_payment();
    let before = l.get_order_detail(&"order_1".to_string()).unwrap().is_completed;
    l.refund_order(&"order_1".to_string(), &"alice".to_string())
        .unwrap();
    let after = l.get_order_detail(&"order_1".to_string()).unwrap();
    assert_eq!(after.is_completed, before);
    assert!(after.is_refund);
}

#[test]
fn payment_never_sets_refund_flag() {
    let mut l = Ledger::new(owner());
    l.pay_order("order_1".to_string(), 7, "alice".to_string(), 7)
        .unwrap();
    assert!(!l.get_order_detail(&"order_1".to_string()).unwrap().is_refund);
    let _ = l.pay_order("order_1".to_string(), 7, "alice".to_string(), 7);
    assert!(!l.get_order_detail(&"order_1".to_string()).unwrap().is_refund);
}

#[test]
fn orders_are_independent() {
    let mut l = Ledger::new(owner());
    l.pay_order("order_1".to_string(), 10, "alice".to_string(), 10)
        .unwrap();
    l.pay_order("order_2".to_string(), 20, "bob".to_string(), 20)
        .unwrap();
    l.refund_order(&"order_1".to_string(), &"alice".to_string())
        .unwrap();
    let d1 = l.get_order_detail(&"order_1".to_string()).unwrap();
    assert!(d1.is_refund);
    assert_eq!(d1.payer_id, "alice");
    assert_eq!(d1.received_amount, 10);
    let d2 = l.get_order_detail(&"order_2".to_string()).unwrap();
    assert!(!d2.is_refund);
    assert_eq!(d2.payer_id, "bob");
    assert_eq!(d2.received_amount, 20);
}

#[test]
fn largest_amount_is_accepted() {
    let mut l = Ledger::new(owner());
    let r = l.pay_order("big".to_string(), u128::MAX, "alice".to_string(), u128::MAX);
    assert!(r.is_ok());
    let d = l.get_order_detail(&"big".to_string()).unwrap();
    assert_eq!(d.received_amount, u128::MAX);
    assert!(d.is_completed);
}

#[test]
fn owner_identity_is_kept() {
    let l = Ledger::new("operator".to_string());
    assert_eq!(l.owner_id(), "operator");
}
