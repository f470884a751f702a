//! A verified journal-entry record store.
//!
//! Each record is owned by the public key that created it and addressed by the
//! pair of its caller-chosen byte identifier and that key.  The store offers
//! three operations — create, update, delete — whose contracts pin down the
//! stored contents, the funding that each caller pays or recovers, and the
//! exact error returned on every rejected input.

pub mod entry;
pub mod laws;
pub mod store;

pub use entry::{
    JournalEntryState, JournalError, Pubkey, HEADER_SIZE, MAX_ENTRY_SPACE, MAX_ID_LEN,
    MAX_MESSAGE_LEN, MAX_TITLE_LEN, OWNER_SIZE,
};
pub use store::JournalStore;
