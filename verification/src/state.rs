//! The tip-jar record, the jar account that holds it, the emitted tip
//! event, and the error taxonomy.

use vstd::prelude::*;
use crate::account::AccountId;

verus! {

/// The longest name a jar may carry.
pub const NAME_MAX: usize = 32;

/// The longest description a jar may carry.
pub const DESCRIPTION_MAX: usize = 128;

/// One tip-jar record, as persisted by the host: display metadata fixed at
/// creation, running totals, and the inputs of its address derivation.
#[derive(Debug)]
pub struct TipJar {
    /// The creator of the jar; only this identity may withdraw or close it.
    pub authority: AccountId,
    /// Display name, immutable after creation.
    pub name: String,
    /// Display description, immutable after creation.
    pub description: String,
    /// Cumulative value received, raised by every tip and lowered
    /// (saturating at zero) by every withdrawal.
    pub total_tips: u64,
    /// How many tips the jar has received; never decreases.
    pub tip_count: u64,
    /// Creation time, as supplied by the creator.
    pub timestamp: i64,
    /// Uniqueness token of the jar, seeded from the creation timestamp; one
    /// of the inputs of the address derivation.
    pub unique_id: u64,
    /// Derivation salt that makes the jar's address land in valid address
    /// space; not business data.
    pub bump: u8,
}

/// The mathematical value of a [`TipJar`].
pub struct TipJarView {
    pub authority: Seq<u8>,
    pub name: Seq<char>,
    pub description: Seq<char>,
    pub total_tips: u64,
    pub tip_count: u64,
    pub timestamp: i64,
    pub unique_id: u64,
    pub bump: u8,
}

impl View for TipJar {
    type V = TipJarView;

    open spec fn view(&self) -> TipJarView {
        TipJarView {
            authority: self.authority@,
            name: self.name@,
            description: self.description@,
            total_tips: self.total_tips,
            tip_count: self.tip_count,
            timestamp: self.timestamp,
            unique_id: self.unique_id,
            bump: self.bump,
        }
    }
}

impl TipJarView {
    /// A record is well formed when its authority is a full identity and
    /// its metadata respects the declared bounds.
    pub open spec fn wf(self) -> bool {
        &&& self.authority.len() == 32
        &&& self.name.len() <= NAME_MAX
        &&& self.description.len() <= DESCRIPTION_MAX
    }
}

/// A jar record together with the value its account holds on the host
/// ledger.  The held balance covers the storage deposit reserved at
/// creation and every tip received since, less every withdrawal.
#[derive(Debug)]
pub struct JarAccount {
    pub record: TipJar,
    pub lamports: u64,
}

/// The mathematical value of a [`JarAccount`].
pub struct JarAccountView {
    pub record: TipJarView,
    pub lamports: u64,
}

impl View for JarAccount {
    type V = JarAccountView;

    open spec fn view(&self) -> JarAccountView {
        JarAccountView { record: self.record@, lamports: self.lamports }
    }
}

impl JarAccountView {
    pub open spec fn wf(self) -> bool {
        self.record.wf()
    }
}

/// The event emitted on every successful tip, for off-chain observers.
/// Emission has no effect on state; it is a side channel only.
#[derive(Debug)]
pub struct TipEvent {
    /// Who sent the tip.
    pub tipper: AccountId,
    /// The address of the jar that received it.
    pub tip_jar: AccountId,
    /// How much was sent.
    pub amount: u64,
    /// The message attached by the tipper.
    pub message: String,
    /// The host clock's reading when the tip was applied.
    pub timestamp: i64,
}

/// The mathematical value of a [`TipEvent`].
pub struct TipEventView {
    pub tipper: Seq<u8>,
    pub tip_jar: Seq<u8>,
    pub amount: u64,
    pub message: Seq<char>,
    pub timestamp: i64,
}

impl View for TipEvent {
    type V = TipEventView;

    open spec fn view(&self) -> TipEventView {
        TipEventView {
            tipper: self.tipper@,
            tip_jar: self.tip_jar@,
            amount: self.amount,
            message: self.message@,
            timestamp: self.timestamp,
        }
    }
}

/// The program-level failures of the four operations.  Every failure is
/// fatal to the requested operation and leaves all state unchanged.
#[derive(Clone, Copy, Debug, PartialEq, Eq, Structural)]
pub enum TipJarError {
    /// The caller of a withdrawal or a close is not the jar's authority.
    NotAuthorized,
    /// A tip of zero value was requested.
    InvalidTipAmount,
    /// A withdrawal asked for more than the jar's held balance.
    InsufficientFunds,
    /// Declared in the taxonomy but raised on no path: closing never
    /// demands an empty jar; any residue is swept to the authority.
    TipJarNotEmpty,
}

/// The failure of a creation: the derived address is already occupied.
/// The host surfaces this as a failed transaction rather than a program
/// error, so it stands apart from [`TipJarError`].
#[derive(Clone, Copy, Debug, PartialEq, Eq, Structural)]
pub enum CreateError {
    DuplicateRecord,
}

} // verus!
