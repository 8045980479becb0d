use tipjar::account::AccountId;
use tipjar::ops::{delete_tip_jar, initialize_tipjar, send_tip, withdraw_tip};
use tipjar::state::{JarAccount, TipJarError};

fn id(b: u8) -> AccountId {
    AccountId::from_bytes(vec![b; 32])
}

#[test]
fn initialize_sets_every_field() {
    let record = initialize_tipjar(id(1), "jar".to_string(), "desc".to_string(), 123, 251);
    assert_eq!(record.authority.bytes, vec![1u8; 32]);
    assert_eq!(record.name, "jar".to_string());
    assert_eq!(record.description, "desc".to_string());
    assert_eq!(record.total_tips, 0);
    assert_eq!(record.tip_count, 0);
    assert_eq!(record.timestamp, 123);
    assert_eq!(record.unique_id, 123);
    assert_eq!(record.bump, 251);
}

#[test]
fn initialize_negative_timestamp_wraps_unique_id() {
    let record = initialize_tipjar(id(1), "jar".to_string(), "desc".to_string(), -1, 255);
    assert_eq!(record.timestamp, -1);
    assert_eq!(record.unique_id, u64::MAX);
}

#[test]
fn send_tip_updates_account_and_echoes_event() {
    let record = initialize_tipjar(id(1), "jar".to_string(), "d".to_string(), 5, 255);
    let mut jar = JarAccount { record, lamports: 10 };
    let event = send_tip(&mut jar, id(2), id(9), 25, "thanks".to_string(), 777).unwrap();
    assert_eq!(jar.record.total_tips, 25);
    assert_eq!(jar.record.tip_count, 1);
    assert_eq!(jar.lamports, 35);
    assert_eq!(event.tipper.bytes, vec![2u8; 32]);
    assert_eq!(event.tip_jar.bytes, vec![9u8; 32]);
    assert_eq!(event.amount, 25);
    assert_eq!(event.message, "thanks".to_string());
    assert_eq!(event.timestamp, 777);
}

#[test]
fn send_tip_zero_amount_rejected() {
    let record = initialize_tipjar(id(1), "jar".to_string(), "d".to_string(), 5, 255);
    let mut jar = JarAccount { record, lamports: 10 };
    let r = send_tip(&mut jar, id(2), id(9), 0, "m".to_string(), 1);
    assert_eq!(r.unwrap_err(), TipJarError::InvalidTipAmount);
    assert_eq!(jar.record.total_tips, 0);
    assert_eq!(jar.record.tip_count, 0);
    assert_eq!(jar.lamports, 10);
}

#[test]
fn withdraw_tip_saturating_subtraction() {
    let record = initialize_tipjar(id(1), "jar".to_string(), "d".to_string(), 5, 255);
    let mut jar = JarAccount { record, lamports: 100 };
    jar.record.total_tips = 10;
    let r = withdraw_tip(&mut jar, &id(1), 60);
    assert!(r.is_ok());
    assert_eq!(jar.lamports, 40);
    assert_eq!(jar.record.total_tips, 0);
}

#[test]
fn withdraw_tip_exact_subtraction() {
    let record = initialize_tipjar(id(1), "jar".to_string(), "d".to_string(), 5, 255);
    let mut jar = JarAccount { record, lamports: 100 };
    jar.record.total_tips = 80;
    let r = withdraw_tip(&mut jar, &id(1), 30);
    assert!(r.is_ok());
    assert_eq!(jar.lamports, 70);
    assert_eq!(jar.record.total_tips, 50);
}

#[test]
fn withdraw_tip_wrong_caller_rejected() {
    let record = initialize_tipjar(id(1), "jar".to_string(), "d".to_string(), 5, 255);
    let mut jar = JarAccount { record, lamports: 100 };
    let r = withdraw_tip(&mut jar, &id(2), 30);
    assert_eq!(r, Err(TipJarError::NotAuthorized));
    assert_eq!(jar.lamports, 100);
}

#[test]
fn delete_tip_jar_owes_whole_balance_to_authority() {
    let record = initialize_tipjar(id(1), "jar".to_string(), "d".to_string(), 5, 255);
    let jar = JarAccount { record, lamports: 4321 };
    assert_eq!(delete_tip_jar(&jar, &id(2)), Err(TipJarError::NotAuthorized));
    assert_eq!(delete_tip_jar(&jar, &id(1)), Ok(4321));
}

#[test]
fn same_id_and_duplicate() {
    let a = id(1);
    let b = id(1);
    let c = id(2);
    assert!(a.same_id(&b));
    assert!(!a.same_id(&c));
    let d = a.duplicate();
    assert!(d.same_id(&a));
    assert_eq!(d.bytes, a.bytes);
}
