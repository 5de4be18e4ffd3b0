//! The table of sessions that the network manager publishes and the peers
//! handles read, which lies behind a lock of `std`.
//!
//! Nothing in this file is proved. What the table holds at a given moment
//! depends on what the manager published last, so a read is held to nothing:
//! whoever reads takes what comes back as it is.

use vstd::prelude::*;
use crate::peers::PeerSession;

verus! {

/// `std::sync::RwLock`. Nothing inside it is visible here.
#[verifier::external_type_specification]
#[verifier::external_body]
#[verifier::reject_recursive_types(T)]
pub struct ExRwLock<T: ?Sized>(std::sync::RwLock<T>);

/// `RwLock::new`: a lock that holds `sessions`.
#[verifier::external_body]
pub(crate) fn new_table(sessions: Vec<PeerSession>) -> (r: std::sync::RwLock<Vec<PeerSession>>)
{
    std::sync::RwLock::new(sessions)
}

/// `RwLock::read`: a copy of what the table holds at this moment. The call
/// waits while the table is being written.
#[verifier::external_body]
pub(crate) fn read_table(table: &std::sync::Arc<std::sync::RwLock<Vec<PeerSession>>>) -> (r: Vec<PeerSession>)
{
    match table.read() {
        Ok(held) => held.clone(),
        Err(poisoned) => poisoned.into_inner().clone(),
    }
}

/// `RwLock::write`: puts `sessions` in the place of what the table held.
/// The call waits while the table is being read.
#[verifier::external_body]
pub(crate) fn write_table(table: &std::sync::Arc<std::sync::RwLock<Vec<PeerSession>>>, sessions: Vec<PeerSession>)
{
    match table.write() {
        Ok(mut held) => *held = sessions,
        Err(poisoned) => *poisoned.into_inner() = sessions,
    }
}

/// `Clone` of `Arc`: another pointer to the same table.
#[verifier::external_body]
pub(crate) fn share_table(table: &std::sync::Arc<std::sync::RwLock<Vec<PeerSession>>>) -> (r: std::sync::Arc<
    std::sync::RwLock<Vec<PeerSession>>,
>)
    ensures
        r == *table,
{
    table.clone()
}

} // verus!
