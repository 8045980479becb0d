use tipjar::account::AccountId;
use tipjar::ledger::Ledger;
use tipjar::state::{CreateError, TipJarError};

fn id(b: u8) -> AccountId {
    AccountId::from_bytes(vec![b; 32])
}

#[test]
fn create_fresh_record_has_zero_totals() {
    let mut ledger = Ledger::new();
    let authority = id(1);
    let r = ledger.create(
        id(1),
        "Coffee Fund".to_string(),
        "buy me coffee".to_string(),
        1000,
        255,
        2_000_000,
    );
    assert!(r.is_ok());
    assert!(ledger.contains_jar(&authority, 1000));
    assert_eq!(ledger.jar_total_tips(&authority, 1000), Some(0));
    assert_eq!(ledger.jar_tip_count(&authority, 1000), Some(0));
    assert_eq!(ledger.jar_lamports(&authority, 1000), Some(2_000_000));
}

#[test]
fn create_duplicate_fails_and_changes_nothing() {
    let mut ledger = Ledger::new();
    let authority = id(1);
    let r1 = ledger.create(id(1), "a".to_string(), "b".to_string(), 42, 254, 10);
    assert!(r1.is_ok());
    let r2 = ledger.create(id(1), "other".to_string(), "text".to_string(), 42, 253, 99);
    assert_eq!(r2, Err(CreateError::DuplicateRecord));
    assert_eq!(ledger.jar_lamports(&authority, 42), Some(10));
    assert_eq!(ledger.jar_total_tips(&authority, 42), Some(0));
}

#[test]
fn create_same_authority_different_timestamp_coexists() {
    let mut ledger = Ledger::new();
    let authority = id(1);
    assert!(ledger.create(id(1), "a".to_string(), "b".to_string(), 1, 255, 5).is_ok());
    assert!(ledger.create(id(1), "c".to_string(), "d".to_string(), 2, 255, 7).is_ok());
    assert_eq!(ledger.jar_lamports(&authority, 1), Some(5));
    assert_eq!(ledger.jar_lamports(&authority, 2), Some(7));
}

#[test]
fn tip_accumulates_and_counts() {
    let mut ledger = Ledger::new();
    let authority = id(1);
    ledger.create(id(1), "a".to_string(), "b".to_string(), 7, 255, 100).unwrap();
    let e1 = ledger
        .tip(id(2), &authority, 7, id(9), 300, "hi".to_string(), 50)
        .unwrap();
    assert_eq!(e1.amount, 300);
    let e2 = ledger
        .tip(id(3), &authority, 7, id(9), 200, "yo".to_string(), 60)
        .unwrap();
    assert_eq!(e2.amount, 200);
    assert_eq!(ledger.jar_total_tips(&authority, 7), Some(500));
    assert_eq!(ledger.jar_tip_count(&authority, 7), Some(2));
    assert_eq!(ledger.jar_lamports(&authority, 7), Some(600));
}

#[test]
fn tip_zero_fails_and_changes_nothing() {
    let mut ledger = Ledger::new();
    let authority = id(1);
    ledger.create(id(1), "a".to_string(), "b".to_string(), 7, 255, 100).unwrap();
    let r = ledger.tip(id(2), &authority, 7, id(9), 0, "free".to_string(), 50);
    assert_eq!(r.unwrap_err(), TipJarError::InvalidTipAmount);
    assert_eq!(ledger.jar_total_tips(&authority, 7), Some(0));
    assert_eq!(ledger.jar_tip_count(&authority, 7), Some(0));
    assert_eq!(ledger.jar_lamports(&authority, 7), Some(100));
}

#[test]
fn withdraw_by_non_authority_fails() {
    let mut ledger = Ledger::new();
    let authority = id(1);
    let stranger = id(5);
    ledger.create(id(1), "a".to_string(), "b".to_string(), 7, 255, 100).unwrap();
    let r = ledger.withdraw(&stranger, &authority, 7, 10);
    assert_eq!(r, Err(TipJarError::NotAuthorized));
    assert_eq!(ledger.jar_lamports(&authority, 7), Some(100));
}

#[test]
fn withdraw_more_than_held_balance_fails() {
    let mut ledger = Ledger::new();
    let authority = id(1);
    ledger.create(id(1), "a".to_string(), "b".to_string(), 7, 255, 50).unwrap();
    let r = ledger.withdraw(&authority, &authority, 7, 100);
    assert_eq!(r, Err(TipJarError::InsufficientFunds));
    assert_eq!(ledger.jar_lamports(&authority, 7), Some(50));
}

#[test]
fn withdraw_saturates_total_tips_at_zero() {
    let mut ledger = Ledger::new();
    let authority = id(1);
    // Deposit 100 held, but only 10 counted as tips: withdrawing 60 is
    // covered by the held balance, and total_tips floors at zero.
    ledger.create(id(1), "a".to_string(), "b".to_string(), 7, 255, 100).unwrap();
    ledger.tip(id(2), &authority, 7, id(9), 10, "m".to_string(), 1).unwrap();
    let r = ledger.withdraw(&authority, &authority, 7, 60);
    assert!(r.is_ok());
    assert_eq!(ledger.jar_total_tips(&authority, 7), Some(0));
    assert_eq!(ledger.jar_lamports(&authority, 7), Some(50));
}

#[test]
fn close_by_non_authority_fails_and_record_stays() {
    let mut ledger = Ledger::new();
    let authority = id(1);
    let stranger = id(5);
    ledger.create(id(1), "a".to_string(), "b".to_string(), 7, 255, 100).unwrap();
    let r = ledger.close(&stranger, &authority, 7);
    assert_eq!(r, Err(TipJarError::NotAuthorized));
    assert!(ledger.contains_jar(&authority, 7));
}

#[test]
fn close_by_authority_sweeps_whole_balance_even_if_not_empty() {
    let mut ledger = Ledger::new();
    let authority = id(1);
    ledger.create(id(1), "a".to_string(), "b".to_string(), 7, 255, 100).unwrap();
    ledger.tip(id(2), &authority, 7, id(9), 40, "m".to_string(), 1).unwrap();
    // No emptiness check guards a close: the residue is swept along with
    // the deposit, and TipJarNotEmpty is never raised.
    let r = ledger.close(&authority, &authority, 7);
    assert_eq!(r, Ok(140));
    assert!(!ledger.contains_jar(&authority, 7));
}

#[test]
fn jar_record_reads_back_metadata() {
    let mut ledger = Ledger::new();
    let authority = id(1);
    ledger
        .create(id(1), "Coffee Fund".to_string(), "buy me coffee".to_string(), 1000, 252, 9)
        .unwrap();
    let record = ledger.jar_record(&authority, 1000).unwrap();
    assert_eq!(record.authority.bytes, vec![1u8; 32]);
    assert_eq!(record.name, "Coffee Fund".to_string());
    assert_eq!(record.description, "buy me coffee".to_string());
    assert_eq!(record.timestamp, 1000);
    assert_eq!(record.unique_id, 1000);
    assert_eq!(record.bump, 252);
    assert!(ledger.jar_record(&authority, 999).is_none());
}

#[test]
fn scenario_full_lifecycle() {
    let mut ledger = Ledger::new();
    let authority = id(1);
    let deposit: u64 = 1_000_000;
    let r = ledger.create(
        id(1),
        "Coffee Fund".to_string(),
        "buy me coffee".to_string(),
        1000,
        255,
        deposit,
    );
    assert!(r.is_ok());
    assert_eq!(ledger.jar_total_tips(&authority, 1000), Some(0));
    assert_eq!(ledger.jar_tip_count(&authority, 1000), Some(0));

    let event = ledger
        .tip(id(2), &authority, 1000, id(9), 500, "nice!".to_string(), 2000)
        .unwrap();
    assert_eq!(event.amount, 500);
    assert_eq!(event.message, "nice!".to_string());
    assert_eq!(event.timestamp, 2000);
    assert_eq!(event.tipper.bytes, vec![2u8; 32]);
    assert_eq!(event.tip_jar.bytes, vec![9u8; 32]);
    assert_eq!(ledger.jar_total_tips(&authority, 1000), Some(500));
    assert_eq!(ledger.jar_tip_count(&authority, 1000), Some(1));

    let r = ledger.withdraw(&authority, &authority, 1000, 500);
    assert!(r.is_ok());
    assert_eq!(ledger.jar_total_tips(&authority, 1000), Some(0));
    assert_eq!(ledger.jar_lamports(&authority, 1000), Some(deposit));

    let r = ledger.close(&authority, &authority, 1000);
    assert_eq!(r, Ok(deposit));
    assert!(!ledger.contains_jar(&authority, 1000));
}
