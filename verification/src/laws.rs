//! Laws that relate several operations of the store.
//!
//! The operations' own contracts fix each single transition; the proofs here
//! state what holds across a sequence of calls: a deleted address can be
//! created again, and an occupied address rejects a second create.

use vstd::prelude::*;

verus! {

use crate::entry::{required_space, sizes_ok, JournalError};
use crate::store::{
    create_outcome, created_model, delete_outcome, EntryAddr, EntryModel,
};

/// Law: an address is reusable after deletion.  For any store state with the
/// address `(id, owner)` vacant and a balance that covers the record, a
/// create succeeds; a delete of the created entry then succeeds; the refund
/// of the record's held funds restores the caller's balance exactly; and a
/// create at the same address, against the store the delete left behind and
/// with the restored balance, succeeds again.
pub proof fn lemma_address_reusable_after_delete(
    m: Map<EntryAddr, EntryModel>,
    id: Seq<u8>,
    title: Seq<char>,
    message: Seq<char>,
    owner: Seq<u8>,
    balance: u64,
)
    requires
        sizes_ok(id, title, message),
        !m.contains_key((id, owner)),
        balance >= required_space(id, title, message),
    ensures
        create_outcome(m, id, title, message, owner, balance) == Ok::<(), JournalError>(()),
        delete_outcome(
            m.insert((id, owner), created_model(id, title, message, owner)),
            id,
            owner,
        ) == Ok::<(), JournalError>(()),
        created_model(id, title, message, owner).held == required_space(id, title, message),
        (balance - required_space(id, title, message)) + created_model(
            id,
            title,
            message,
            owner,
        ).held == balance,
        create_outcome(
            m.insert((id, owner), created_model(id, title, message, owner)).remove((id, owner)),
            id,
            title,
            message,
            owner,
            balance,
        ) == Ok::<(), JournalError>(()),
{
    assert(m.insert((id, owner), created_model(id, title, message, owner)).remove((id, owner))
        =~= m);
}

/// Law: an occupied address rejects a second create.  Once a create for
/// `(id, owner)` has succeeded, any create for the same pair against the
/// resulting store fails with `DuplicateEntry`, whatever in-limit title and
/// message and whatever balance the second call brings, until the entry is
/// deleted.
pub proof fn lemma_second_create_is_duplicate(
    m: Map<EntryAddr, EntryModel>,
    id: Seq<u8>,
    title: Seq<char>,
    message: Seq<char>,
    owner: Seq<u8>,
    balance: u64,
    title2: Seq<char>,
    message2: Seq<char>,
    balance2: u64,
)
    requires
        create_outcome(m, id, title, message, owner, balance) == Ok::<(), JournalError>(()),
        sizes_ok(id, title2, message2),
    ensures
        create_outcome(
            m.insert((id, owner), created_model(id, title, message, owner)),
            id,
            title2,
            message2,
            owner,
            balance2,
        ) == Err::<(), JournalError>(JournalError::DuplicateEntry),
{
}

} // verus!
