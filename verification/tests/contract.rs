use student_ledger::accounting::{CallContext, Error, RefundEffect};
use student_ledger::course::Course;
use student_ledger::students::Student;
use student_ledger::Contract;

fn ctx(caller: &str, payment: u128, before: u64, after: u64, cost: u128) -> CallContext {
    CallContext {
        caller: caller.to_string(),
        attached_payment: payment,
        usage_before: before,
        usage_after: after,
        cost_per_byte: cost,
    }
}

fn names(courses: &[Course]) -> Vec<String> {
    courses.iter().map(|c| c.name.clone()).collect()
}

#[test]
fn add_exact_payment_no_refund() {
    // 10 bytes at cost 1: a payment of exactly 10 succeeds with no refund.
    let mut c = Contract::default();
    let r = c.add_to_map("Alice".to_string(), "Math".to_string(), 2024, 20, &ctx("alice", 10, 0, 10, 1));
    assert_eq!(r, Ok(None));
    let got = c.get_from_map(&"alice".to_string()).expect("record was stored");
    assert_eq!(got.name, "Alice");
    assert_eq!(got.course, "Math");
    assert_eq!(got.year, 2024);
    assert_eq!(got.age, 20);
}

#[test]
fn add_then_get_round_trip() {
    let mut c = Contract::default();
    let r = c.add_to_map("Bob".to_string(), "History".to_string(), 2021, 25, &ctx("bob", 50, 100, 120, 2));
    assert!(r.is_ok());
    let got = c.get_from_map(&"bob".to_string()).expect("record was stored");
    assert_eq!(
        got,
        Student { name: "Bob".to_string(), course: "History".to_string(), year: 2021, age: 25 }
    );
}

#[test]
fn add_overpayment_refunds_exact_excess() {
    // 5 bytes at cost 2 = 10 owed; 17 attached refunds exactly 7 to the caller.
    let mut c = Contract::default();
    let r = c.add_to_map("Alice".to_string(), "Math".to_string(), 2024, 20, &ctx("alice", 17, 10, 15, 2));
    assert_eq!(r, Ok(Some(RefundEffect { to: "alice".to_string(), amount: 7 })));
    assert!(c.search_in_map("alice".to_string()));
}

#[test]
fn add_insufficient_payment_leaves_store_unchanged() {
    // 5 bytes at cost 2 = 10 owed; 9 attached aborts and persists nothing.
    let mut c = Contract::default();
    let r = c.add_to_map("Alice".to_string(), "Math".to_string(), 2024, 20, &ctx("alice", 9, 10, 15, 2));
    assert_eq!(r, Err(Error::InsufficientPayment));
    assert_eq!(c.get_from_map(&"alice".to_string()), None);
    assert!(!c.search_in_map("alice".to_string()));
}

#[test]
fn add_cost_overflow_fails_closed() {
    let mut c = Contract::default();
    let r = c.add_to_map("Alice".to_string(), "Math".to_string(), 2024, 20, &ctx("alice", u128::MAX, 0, 2, u128::MAX));
    assert_eq!(r, Err(Error::Overflow));
    assert!(!c.search_in_map("alice".to_string()));
}

#[test]
fn add_zero_bytes_costs_nothing() {
    let mut c = Contract::default();
    let r = c.add_to_map("Alice".to_string(), "Math".to_string(), 2024, 20, &ctx("alice", 0, 30, 30, 5));
    assert_eq!(r, Ok(None));
    assert!(c.search_in_map("alice".to_string()));
}

#[test]
fn add_replaces_existing_record() {
    let mut c = Contract::default();
    c.add_to_map("Alice".to_string(), "Math".to_string(), 2024, 20, &ctx("alice", 10, 0, 10, 1)).unwrap();
    c.add_to_map("Alice".to_string(), "Physics".to_string(), 2025, 21, &ctx("alice", 10, 10, 12, 1)).unwrap();
    let got = c.get_from_map(&"alice".to_string()).expect("record was stored");
    assert_eq!(got.course, "Physics");
    assert_eq!(got.year, 2025);
    assert_eq!(got.age, 21);
}

#[test]
fn absent_caller_gets_nothing() {
    let c = Contract::default();
    assert_eq!(c.get_from_map(&"nobody".to_string()), None);
    assert!(!c.search_in_map("nobody".to_string()));
}

#[test]
fn search_finds_added_caller_only() {
    let mut c = Contract::default();
    c.add_to_map("Alice".to_string(), "Math".to_string(), 2024, 20, &ctx("alice", 10, 0, 10, 1)).unwrap();
    assert!(c.search_in_map("alice".to_string()));
    assert!(!c.search_in_map("bob".to_string()));
}

#[test]
fn remove_returns_stored_record() {
    let mut c = Contract::default();
    c.add_to_map("Alice".to_string(), "Math".to_string(), 2024, 20, &ctx("alice", 10, 0, 10, 1)).unwrap();
    let removed = c.remove_from_map(&"alice".to_string()).expect("record was stored");
    assert_eq!(removed.name, "Alice");
    assert_eq!(c.get_from_map(&"alice".to_string()), None);
}

#[test]
fn remove_absent_caller_changes_nothing() {
    let mut c = Contract::default();
    c.add_to_map("Alice".to_string(), "Math".to_string(), 2024, 20, &ctx("alice", 10, 0, 10, 1)).unwrap();
    assert_eq!(c.remove_from_map(&"bob".to_string()), None);
    // Other keys are untouched.
    assert!(c.search_in_map("alice".to_string()));
    // Removing twice is idempotent.
    assert_eq!(c.remove_from_map(&"bob".to_string()), None);
}

fn abc_ledger() -> Contract {
    let mut c = Contract::default();
    c.add_to_vec("A".to_string());
    c.add_to_vec("B".to_string());
    c.add_to_vec("C".to_string());
    c
}

#[test]
fn list_all_in_append_order() {
    let c = abc_ledger();
    assert_eq!(names(&c.get_from_vec(0, 10)), vec!["A", "B", "C"]);
    assert_eq!(names(&c.get_from_vec(0, 3)), vec!["A", "B", "C"]);
}

#[test]
fn list_start_at_or_past_end_is_empty() {
    let c = abc_ledger();
    assert!(c.get_from_vec(3, 2).is_empty());
    assert!(c.get_from_vec(7, 10).is_empty());
}

#[test]
fn list_clamps_to_length() {
    let c = abc_ledger();
    assert_eq!(names(&c.get_from_vec(1, 5)), vec!["B", "C"]);
    assert_eq!(names(&c.get_from_vec(2, 3)), vec!["C"]);
    assert!(c.get_from_vec(1, 0).is_empty());
}

#[test]
fn remove_course_swaps_last_into_slot() {
    // Removing A from [A, B, C] returns A and moves C into its place.
    let mut c = abc_ledger();
    let removed = c.remove_from_vec(0).expect("index 0 is in range");
    assert_eq!(removed.name, "A");
    assert_eq!(names(&c.get_from_vec(0, 10)), vec!["C", "B"]);
}

#[test]
fn remove_last_course_just_shrinks() {
    let mut c = abc_ledger();
    let removed = c.remove_from_vec(2).expect("index 2 is in range");
    assert_eq!(removed.name, "C");
    assert_eq!(names(&c.get_from_vec(0, 10)), vec!["A", "B"]);
}

#[test]
fn remove_course_out_of_range_changes_nothing() {
    let mut c = abc_ledger();
    assert_eq!(c.remove_from_vec(3), Err(Error::OutOfRange));
    assert_eq!(c.remove_from_vec(100), Err(Error::OutOfRange));
    assert_eq!(names(&c.get_from_vec(0, 10)), vec!["A", "B", "C"]);
}

#[test]
fn settlement_outcomes() {
    let c = Contract::default();
    // Exact payment: settled, no effect.
    assert_eq!(c.pay_for_storage(&ctx("alice", 12, 4, 10, 2)), Ok(None));
    // Overpayment: a refund of exactly the excess, addressed to the caller.
    assert_eq!(
        c.pay_for_storage(&ctx("alice", 20, 4, 10, 2)),
        Ok(Some(RefundEffect { to: "alice".to_string(), amount: 8 }))
    );
    // Underpayment: insufficient funds.
    assert_eq!(c.pay_for_storage(&ctx("alice", 11, 4, 10, 2)), Err(Error::InsufficientPayment));
    // Overflowing cost: fails closed.
    assert_eq!(c.pay_for_storage(&ctx("alice", 5, 0, 3, u128::MAX / 2)), Err(Error::Overflow));
}

#[test]
fn return_excess_tokens_describes_transfer() {
    let c = Contract::default();
    let effect = c.return_excess_tokens("alice".to_string(), 42);
    assert_eq!(effect, RefundEffect { to: "alice".to_string(), amount: 42 });
}
