//! The laws of the ledger, proved once and for all over the transition
//! spec functions that the executable operations are pinned to.

use vstd::prelude::*;
use crate::ledger::{spec_close, spec_create, JarKey};
use crate::ops::{spec_send_tip, spec_withdraw};
use crate::state::{CreateError, JarAccountView, TipEventView, TipJarError};

verus! {

/// Law: for every store and every valid creation input whose derived key
/// is free, the creation succeeds and writes a fresh record — authority,
/// metadata and timestamp as supplied, both totals zero, the deposit as
/// the held balance — and a second creation by the same authority with
/// the same timestamp then fails with `DuplicateRecord`, changing
/// nothing, whatever metadata or deposit it carries.
pub proof fn lemma_create_fresh_then_duplicate(
    m: Map<JarKey, JarAccountView>,
    authority: Seq<u8>,
    name: Seq<char>,
    description: Seq<char>,
    timestamp: i64,
    bump: u8,
    deposit: u64,
    name2: Seq<char>,
    description2: Seq<char>,
    bump2: u8,
    deposit2: u64,
)
    requires
        !m.dom().contains((authority, timestamp as u64)),
    ensures
        ({
            let key = (authority, timestamp as u64);
            let t1 = spec_create(m, authority, name, description, timestamp, bump, deposit);
            let t2 = spec_create(t1.0, authority, name2, description2, timestamp, bump2, deposit2);
            &&& t1.1 == Ok::<(), CreateError>(())
            &&& t1.0.dom().contains(key)
            &&& t1.0[key].record.authority == authority
            &&& t1.0[key].record.name == name
            &&& t1.0[key].record.description == description
            &&& t1.0[key].record.total_tips == 0
            &&& t1.0[key].record.tip_count == 0
            &&& t1.0[key].record.timestamp == timestamp
            &&& t1.0[key].record.unique_id == timestamp as u64
            &&& t1.0[key].lamports == deposit
            &&& t2.1 == Err::<(), CreateError>(CreateError::DuplicateRecord)
            &&& t2.0 == t1.0
        }),
{
}

/// Law: for every jar and every positive amount, a tip raises
/// `total_tips` by exactly the amount and `tip_count` by exactly one —
/// so `tip_count` strictly increases — credits the held balance by the
/// amount, touches nothing else of the record, and yields the event
/// echoing the tipper, the jar's address, the amount, the message and
/// the clock.  A zero amount fails with `InvalidTipAmount` and leaves
/// the jar untouched.
pub proof fn lemma_tip_transition(
    jar: JarAccountView,
    tipper: Seq<u8>,
    jar_address: Seq<u8>,
    amount: u64,
    message: Seq<char>,
    now: i64,
)
    requires
        jar.record.total_tips + amount <= u64::MAX,
        jar.record.tip_count + 1 <= u64::MAX,
        jar.lamports + amount <= u64::MAX,
    ensures
        ({
            let t = spec_send_tip(jar, tipper, jar_address, amount, message, now);
            &&& amount > 0 ==> {
                &&& t.1 == Ok::<TipEventView, TipJarError>(
                    TipEventView { tipper, tip_jar: jar_address, amount, message, timestamp: now },
                )
                &&& t.0.record.total_tips == jar.record.total_tips + amount
                &&& t.0.record.tip_count == jar.record.tip_count + 1
                &&& t.0.record.tip_count > jar.record.tip_count
                &&& t.0.lamports == jar.lamports + amount
                &&& t.0.record.authority == jar.record.authority
                &&& t.0.record.name == jar.record.name
                &&& t.0.record.description == jar.record.description
                &&& t.0.record.timestamp == jar.record.timestamp
                &&& t.0.record.unique_id == jar.record.unique_id
                &&& t.0.record.bump == jar.record.bump
            }
            &&& amount == 0 ==> t.0 == jar && t.1 == Err::<TipEventView, TipJarError>(
                TipJarError::InvalidTipAmount,
            )
        }),
{
}

/// Law: a withdrawal by anyone but the jar's authority fails with
/// `NotAuthorized` and leaves the jar unchanged; one asking for more
/// than the held balance fails with `InsufficientFunds`, unchanged
/// again; and a successful withdrawal debits the held balance by the
/// amount while `total_tips` becomes `max(0, total_tips - amount)`,
/// saturating rather than underflowing.
pub proof fn lemma_withdraw_transition(jar: JarAccountView, caller: Seq<u8>, amount: u64)
    ensures
        ({
            let t = spec_withdraw(jar, caller, amount);
            &&& caller != jar.record.authority ==> t.0 == jar && t.1 == Err::<(), TipJarError>(
                TipJarError::NotAuthorized,
            )
            &&& caller == jar.record.authority && jar.lamports < amount ==> t.0 == jar && t.1
                == Err::<(), TipJarError>(TipJarError::InsufficientFunds)
            &&& caller == jar.record.authority && jar.lamports >= amount ==> {
                &&& t.1 == Ok::<(), TipJarError>(())
                &&& t.0.lamports == jar.lamports - amount
                &&& t.0.record.total_tips == if jar.record.total_tips >= amount {
                    jar.record.total_tips - amount
                } else {
                    0
                }
                &&& t.0.record.tip_count == jar.record.tip_count
                &&& t.0.record.authority == jar.record.authority
            }
        }),
{
}

/// Law: a close by anyone but the jar's authority fails with
/// `NotAuthorized` and leaves the store unchanged; a close by the
/// authority removes the record — it resolves no more — and owes the
/// authority exactly the jar's prior held balance, deposit included.
pub proof fn lemma_close_transition(
    m: Map<JarKey, JarAccountView>,
    key: JarKey,
    caller: Seq<u8>,
)
    requires
        m.dom().contains(key),
    ensures
        ({
            let t = spec_close(m, key, caller);
            &&& caller != m[key].record.authority ==> t.0 == m && t.1 == Err::<u64, TipJarError>(
                TipJarError::NotAuthorized,
            )
            &&& caller == m[key].record.authority ==> {
                &&& t.1 == Ok::<u64, TipJarError>(m[key].lamports)
                &&& t.0 == m.remove(key)
                &&& !t.0.dom().contains(key)
            }
        }),
{
}

} // verus!
