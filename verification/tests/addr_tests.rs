use tipjar::account::AccountId;
use tipjar::addr::derive_jar_address;

fn id(b: u8) -> AccountId {
    AccountId::from_bytes(vec![b; 32])
}

#[test]
fn derivation_yields_a_full_address_and_salt() {
    let program = id(3);
    let authority = id(1);
    let (address, _bump) = derive_jar_address(&program, &authority, 1000).unwrap();
    assert_eq!(address.bytes.len(), 32);
}

#[test]
fn derivation_is_deterministic() {
    let program = id(3);
    let authority = id(1);
    let (a1, b1) = derive_jar_address(&program, &authority, 1000).unwrap();
    let (a2, b2) = derive_jar_address(&program, &authority, 1000).unwrap();
    assert_eq!(a1.bytes, a2.bytes);
    assert_eq!(b1, b2);
}

#[test]
fn derivation_actually_derives() {
    // The derived address is a hash of the seeds: it echoes neither the
    // authority nor the program identity back.
    let program = id(3);
    let authority = id(1);
    let (address, _bump) = derive_jar_address(&program, &authority, 1000).unwrap();
    assert_ne!(address.bytes, authority.bytes);
    assert_ne!(address.bytes, program.bytes);
}

#[test]
fn derivation_depends_on_every_input() {
    let program = id(3);
    let authority = id(1);
    let (base, _) = derive_jar_address(&program, &authority, 1000).unwrap();
    let (other_token, _) = derive_jar_address(&program, &authority, 1001).unwrap();
    let (other_auth, _) = derive_jar_address(&program, &id(2), 1000).unwrap();
    let (other_prog, _) = derive_jar_address(&id(4), &authority, 1000).unwrap();
    assert_ne!(base.bytes, other_token.bytes);
    assert_ne!(base.bytes, other_auth.bytes);
    assert_ne!(base.bytes, other_prog.bytes);
}
