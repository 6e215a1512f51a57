//! A small verified metadata store for a VJ desktop tool.
//!
//! The store owns five tables — artists, logos, artist-logo links, a
//! time-ordered schedule and an ordered logo cycle — and keeps their
//! integrity rules as a verified invariant: unique identifiers, a globally
//! unique logo file path, referential integrity of links, cycle entries and
//! schedule references, cascading deletes, and an all-or-nothing replacement
//! of the cycle order.

use vstd::prelude::*;

pub mod idgen;
pub mod laws;
pub mod order;
pub mod records;
pub mod store;

verus! {

/// The classified failures a store operation can report.
#[derive(Debug, Clone, Copy, PartialEq, Eq, Structural)]
pub enum StoreError {
    /// The backing store is not available. After a successful startup this
    /// should not occur; callers still handle it defensively.
    StoreUnavailable,
    /// A logo with the same file path already exists.
    DuplicatePath,
    /// A referenced artist or logo does not exist.
    InvalidReference,
    /// A statement could not be carried out, such as an insert under an
    /// identifier that is already taken.
    QueryFailure,
    /// A transaction could not be started or committed.
    TransactionFailure,
}

} // verus!
