//! A verified model of a tip-jar ledger: named jars that any account may
//! create, arbitrary senders may tip, and only the jar's authority may drain
//! or close.  The four operations are deterministic state transitions over
//! externally persisted jar records; authorization is a plain identity check
//! against the authority stored in the record at creation.

pub mod account;
pub mod state;
pub mod ops;
pub mod ledger;
pub mod addr;
pub mod laws;
