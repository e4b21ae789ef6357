use movie_review::account::Account;
use movie_review::address::Address;
use movie_review::error::ReviewError;

fn slot() -> Account {
    Account::unallocated(Address { bytes: [1; 32] }, Address { bytes: [0; 32] })
}

#[test]
fn allocation_happens_once() {
    let program = Address { bytes: [7; 32] };
    let fresh = slot();
    assert!(!fresh.is_allocated());
    let allocated = fresh.allocate(20, &program);
    assert!(allocated.is_allocated());
    assert_eq!(allocated.data, vec![0u8; 20]);
    assert_eq!(allocated.owner, program);
    assert_eq!(allocated.key, fresh.key);

    let mut written = allocated.clone();
    written.data[3] = 9;
    let again = written.allocate(1000, &Address { bytes: [8; 32] });
    assert_eq!(again, written);
}

#[test]
fn store_writes_over_the_start_of_the_slot() {
    let slot =
        Account::new(Address { bytes: [1; 32] }, Address { bytes: [7; 32] }, false, vec![5; 6]);
    let stored = slot.store(&vec![1, 2, 3]).unwrap();
    assert_eq!(stored.data, vec![1, 2, 3, 5, 5, 5]);
    assert_eq!(stored.key, slot.key);
    assert_eq!(stored.owner, slot.owner);
    let full = slot.store(&vec![9; 6]).unwrap();
    assert_eq!(full.data, vec![9; 6]);
    let empty = slot.store(&Vec::new()).unwrap();
    assert_eq!(empty, slot);
}

#[test]
fn store_does_not_grow_a_slot() {
    let small =
        Account::new(Address { bytes: [1; 32] }, Address { bytes: [7; 32] }, false, vec![5; 6]);
    assert_eq!(small.store(&vec![0; 7]), Err(ReviewError::AccountDataTooSmall));
    assert_eq!(slot().store(&vec![0]), Err(ReviewError::AccountDataTooSmall));
}
