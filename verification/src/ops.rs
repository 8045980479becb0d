//! The four entry points of the program, at the level of one resolved jar
//! account: each is a deterministic transition given by a spec function,
//! and an executable function proved to apply exactly that transition.
//!
//! Resolving the jar account behind a reference, moving value between
//! accounts, and broadcasting events are the host's work; these functions
//! receive the resolved account and plain values, and return the effects
//! (the new account state, the event, the swept balance) as plain values.

use vstd::prelude::*;
use crate::account::AccountId;
use crate::state::{DESCRIPTION_MAX, NAME_MAX, JarAccount, JarAccountView, TipEvent, TipEventView, TipJar, TipJarError,
    TipJarView};

verus! {

/// The record a creation writes: metadata as supplied, both totals zero,
/// and the uniqueness token seeded from the creation timestamp.
pub open spec fn spec_initialize(
    authority: Seq<u8>,
    name: Seq<char>,
    description: Seq<char>,
    timestamp: i64,
    bump: u8,
) -> TipJarView {
    TipJarView {
        authority,
        name,
        description,
        total_tips: 0,
        tip_count: 0,
        timestamp,
        unique_id: timestamp as u64,
        bump,
    }
}

/// The transition a tip applies to one jar account: a zero amount is
/// rejected and nothing changes; a positive amount moves into the jar's
/// held balance, raises `total_tips` by the amount and `tip_count` by one,
/// and yields the event handed to off-chain observers.
pub open spec fn spec_send_tip(
    jar: JarAccountView,
    tipper: Seq<u8>,
    jar_address: Seq<u8>,
    amount: u64,
    message: Seq<char>,
    now: i64,
) -> (JarAccountView, Result<TipEventView, TipJarError>) {
    if amount == 0 {
        (jar, Err(TipJarError::InvalidTipAmount))
    } else {
        let jar2 = JarAccountView {
            record: TipJarView {
                total_tips: (jar.record.total_tips + amount) as u64,
                tip_count: (jar.record.tip_count + 1) as u64,
                ..jar.record
            },
            lamports: (jar.lamports + amount) as u64,
        };
        let event = TipEventView { tipper, tip_jar: jar_address, amount, message, timestamp: now };
        (jar2, Ok(event))
    }
}

/// The transition a withdrawal applies: a caller other than the authority
/// is turned away, an amount above the held balance is refused, and
/// otherwise the amount leaves the held balance while `total_tips` drops
/// by the amount, saturating at zero.
pub open spec fn spec_withdraw(
    jar: JarAccountView,
    caller: Seq<u8>,
    amount: u64,
) -> (JarAccountView, Result<(), TipJarError>) {
    if caller != jar.record.authority {
        (jar, Err(TipJarError::NotAuthorized))
    } else if jar.lamports < amount {
        (jar, Err(TipJarError::InsufficientFunds))
    } else {
        let jar2 = JarAccountView {
            record: TipJarView {
                total_tips: if amount > jar.record.total_tips {
                    0
                } else {
                    (jar.record.total_tips - amount) as u64
                },
                ..jar.record
            },
            lamports: (jar.lamports - amount) as u64,
        };
        (jar2, Ok(()))
    }
}

/// What a close decides: a caller other than the authority is turned away;
/// the authority is owed the jar's whole held balance, storage deposit
/// included, and the record is gone afterwards.
pub open spec fn spec_delete(jar: JarAccountView, caller: Seq<u8>) -> Result<u64, TipJarError> {
    if caller != jar.record.authority {
        Err(TipJarError::NotAuthorized)
    } else {
        Ok(jar.lamports)
    }
}

/// The view of a tip's result: the event by value, the error as it is.
pub open spec fn tip_result_view(
    r: Result<TipEvent, TipJarError>,
) -> Result<TipEventView, TipJarError> {
    match r {
        Ok(ev) => Ok(ev@),
        Err(e) => Err(e),
    }
}

/// Builds the record of a fresh jar: the caller's identity and metadata,
/// both totals zero, the creation time, the uniqueness token seeded from
/// it, and the derivation salt the host found.
pub fn initialize_tipjar(
    authority: AccountId,
    name: String,
    description: String,
    timestamp: i64,
    bump: u8,
) -> (r: TipJar)
    requires
        authority@.len() == 32,
        name@.len() <= NAME_MAX,
        description@.len() <= DESCRIPTION_MAX,
    ensures
        r@ == spec_initialize(authority@, name@, description@, timestamp, bump),
        r@.wf(),
{
    let unique_id: u64 = #[verifier::truncate] (timestamp as u64);
    TipJar {
        authority,
        name,
        description,
        total_tips: 0,
        tip_count: 0,
        timestamp,
        unique_id,
        bump,
    }
}

/// Applies a tip to a resolved jar account.  A zero amount fails with
/// [`TipJarError::InvalidTipAmount`] and changes nothing; a positive
/// amount is credited to the jar, counted, and echoed in the returned
/// event.  Overflow of a counter is fatal to the whole transaction on the
/// host, so the bounds stand here as preconditions.
pub fn send_tip(
    jar: &mut JarAccount,
    tipper: AccountId,
    jar_address: AccountId,
    amount: u64,
    message: String,
    now: i64,
) -> (r: Result<TipEvent, TipJarError>)
    requires
        old(jar).record.total_tips + amount <= u64::MAX,
        old(jar).record.tip_count + 1 <= u64::MAX,
        old(jar).lamports + amount <= u64::MAX,
    ensures
        final(jar)@ == spec_send_tip(old(jar)@, tipper@, jar_address@, amount, message@, now).0,
        tip_result_view(r) == spec_send_tip(old(jar)@, tipper@, jar_address@, amount, message@,
            now).1,
        r is Ok <==> amount > 0,
        r is Err ==> final(jar)@ == old(jar)@,
{
    if amount == 0 {
        return Err(TipJarError::InvalidTipAmount);
    }
    jar.lamports = jar.lamports + amount;
    jar.record.total_tips = jar.record.total_tips + amount;
    jar.record.tip_count = jar.record.tip_count + 1;
    Ok(TipEvent { tipper, tip_jar: jar_address, amount, message, timestamp: now })
}

/// Applies a withdrawal to a resolved jar account.  Only the stored
/// authority may withdraw, and only up to the held balance; a successful
/// withdrawal lowers `total_tips` by the amount, saturating at zero.  The
/// host owes the caller the amount exactly when `Ok` is returned.
pub fn withdraw_tip(jar: &mut JarAccount, caller: &AccountId, amount: u64) -> (r: Result<
    (),
    TipJarError,
>)
    ensures
        final(jar)@ == spec_withdraw(old(jar)@, caller@, amount).0,
        r == spec_withdraw(old(jar)@, caller@, amount).1,
        r is Ok <==> caller@ == old(jar).record.authority@ && old(jar).lamports >= amount,
        r is Err ==> final(jar)@ == old(jar)@,
{
    if !caller.same_id(&jar.record.authority) {
        return Err(TipJarError::NotAuthorized);
    }
    if jar.lamports < amount {
        return Err(TipJarError::InsufficientFunds);
    }
    jar.lamports = jar.lamports - amount;
    jar.record.total_tips = if amount > jar.record.total_tips {
        0
    } else {
        jar.record.total_tips - amount
    };
    Ok(())
}

/// Decides a close of a resolved jar account.  Only the stored authority
/// may close; on success the returned amount is the jar's whole held
/// balance, which the host sweeps to the authority while deallocating the
/// record.
pub fn delete_tip_jar(jar: &JarAccount, caller: &AccountId) -> (r: Result<u64, TipJarError>)
    ensures
        r == spec_delete(jar@, caller@),
        r is Ok <==> caller@ == jar.record.authority@,
{
    if !caller.same_id(&jar.record.authority) {
        return Err(TipJarError::NotAuthorized);
    }
    Ok(jar.lamports)
}

} // verus!
