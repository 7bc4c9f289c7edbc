//! Charges, refusals, refunds and credit notifications of a byte budget.
use phonowire::memory::BudgetInUse;
use phonowire::{BudgetError, ByteBudget};

#[test]
fn clones_share_exact_full_and_oversized_refusal() {
    let mut budget = ByteBudget::new(3);
    assert!(matches!(
        budget.try_copy(&[1, 2, 3, 4]),
        Err(BudgetError::TooLarge {
            required: 4,
            capacity: 3,
        })
    ));
    let retained = match budget.try_copy(&[1, 2]) {
        Ok(bytes) => bytes,
        Err(error) => panic!("first copy should fit: {error:?}"),
    };
    assert_eq!(budget.used(), 2);
    assert!(matches!(
        budget.try_copy(&[3, 4]),
        Err(BudgetError::Full {
            required: 2,
            available: 1,
        })
    ));
    assert_eq!(budget.release(retained), None);
    assert_eq!(budget.used(), 0);
}

#[test]
fn cross_thread_last_drop_wakes_the_current_subscriber() {
    let mut budget = ByteBudget::new(2);
    let mut wakes = 0;
    let subscription = match budget.subscribe(5) {
        Ok(subscription) => subscription,
        Err(error) => panic!("first subscriber should register: {error:?}"),
    };
    let retained = match budget.try_copy(&[1, 2]) {
        Ok(bytes) => bytes,
        Err(error) => panic!("copy should fit: {error:?}"),
    };
    if budget.release(retained) == Some(5) {
        wakes += 1;
    }
    assert_eq!(wakes, 1);
    assert_eq!(budget.used(), 0);
    budget.unsubscribe(subscription);
}

#[test]
fn subscription_is_exclusive_and_drop_allows_replacement() {
    let mut budget = ByteBudget::new(1);
    let first = match budget.subscribe(1) {
        Ok(subscription) => subscription,
        Err(error) => panic!("first subscriber should register: {error:?}"),
    };
    assert!(matches!(budget.subscribe(2), Err(BudgetInUse)));
    budget.unsubscribe(first);
    let replacement = match budget.subscribe(2) {
        Ok(subscription) => subscription,
        Err(error) => panic!("replacement subscriber should register: {error:?}"),
    };
    let retained = match budget.try_copy(&[1]) {
        Ok(bytes) => bytes,
        Err(error) => panic!("copy should fit: {error:?}"),
    };
    let mut second_counter = 0;
    if budget.release(retained) == Some(2) {
        second_counter += 1;
    }
    assert_eq!(second_counter, 1);
    budget.unsubscribe(replacement);
    assert_eq!(budget.capacity(), 1);
}

#[test]
fn empty_copies_take_no_capacity_and_wake_nobody() {
    let mut budget = ByteBudget::new(1);
    let subscription = budget.subscribe(9).expect("subscriber");
    let full = budget.try_copy(&[7]).expect("whole capacity");
    let empty = budget.try_copy(&[]).expect("an empty copy always fits");
    assert_eq!(empty.charged_capacity(), 0);
    assert_eq!(full.charged_capacity(), 1);
    assert_eq!(full.as_slice(), &[7]);
    assert_eq!(budget.used(), 1);
    assert_eq!(budget.release(empty), None);
    assert_eq!(budget.release(full), Some(9));
    budget.unsubscribe(subscription);
    assert_eq!(
        BudgetError::TooLarge {
            required: 4,
            capacity: 3
        }
        .message(),
        "requested 4 bytes exceeds capacity 3"
    );
    assert_eq!(
        BudgetError::Full {
            required: 2,
            available: 1
        }
        .message(),
        "requested 2 bytes with only 1 available"
    );
}
