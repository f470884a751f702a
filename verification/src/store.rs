//! The journal store: one entry per `(id, owner)` address.
//!
//! The store is modelled as a finite map from the pair of an entry's
//! identifier bytes and its owner's key bytes to the entry's contents and the
//! funds the record holds.  Create inserts a fresh record and charges its
//! space to the caller, update resizes the record and settles the difference,
//! delete removes the record and returns its held funds.  Every operation
//! either performs exactly that map transition or leaves the store and the
//! caller's balance untouched and reports why.

use vstd::prelude::*;

verus! {

use crate::entry::{
    check_sizes, entry_space, id_eq, pubkey_eq, required_space, sizes_ok, JournalEntryState,
    JournalError, Pubkey, MAX_ENTRY_SPACE,
};

/// The address of an entry: its identifier bytes paired with its owner's key
/// bytes.  Exactly one entry can exist per address.
pub type EntryAddr = (Seq<u8>, Seq<u8>);

/// The mathematical content of one stored record: the fields of the entry and
/// the funds the record holds for its storage.
pub ghost struct EntryModel {
    pub owner: Seq<u8>,
    pub id: Seq<u8>,
    pub title: Seq<char>,
    pub message: Seq<char>,
    pub held: u64,
}

/// One allocated record: the entry together with the funds that were paid for
/// its storage and return to the owner when the record is freed.
pub struct StoredEntry {
    pub entry: JournalEntryState,
    pub held: u64,
}

/// The address at which an entry lives.
pub open spec fn entry_addr(e: JournalEntryState) -> EntryAddr {
    (e.id@, e.owner@)
}

/// The model of one stored record.
pub open spec fn stored_model(se: StoredEntry) -> EntryModel {
    EntryModel {
        owner: se.entry.owner@,
        id: se.entry.id@,
        title: se.entry.title@,
        message: se.entry.message@,
        held: se.held,
    }
}

/// A record is sound when its fields are within their limits and it holds
/// exactly the funds its current space costs.
pub open spec fn stored_ok(se: StoredEntry) -> bool {
    se.entry.valid() && se.held == required_space(se.entry.id@, se.entry.title@, se.entry.message@)
}

spec fn entries_view(s: Seq<StoredEntry>) -> Map<EntryAddr, EntryModel>
    decreases s.len(),
{
    if s.len() == 0 {
        Map::empty()
    } else {
        entries_view(s.drop_last()).insert(entry_addr(s.last().entry), stored_model(s.last()))
    }
}

spec fn addrs_unique(s: Seq<StoredEntry>) -> bool {
    forall|i: int, j: int|
        0 <= i < j < s.len() ==> entry_addr(s[i].entry) != entry_addr(s[j].entry)
}

proof fn lemma_unique_drop_last(s: Seq<StoredEntry>)
    requires
        addrs_unique(s),
        s.len() > 0,
    ensures
        addrs_unique(s.drop_last()),
{
    assert forall|i: int, j: int| 0 <= i < j < s.drop_last().len() implies entry_addr(
        s.drop_last()[i].entry,
    ) != entry_addr(s.drop_last()[j].entry) by {
        assert(s.drop_last()[i] == s[i]);
        assert(s.drop_last()[j] == s[j]);
    }
}

proof fn lemma_view_contains(s: Seq<StoredEntry>, k: EntryAddr)
    ensures
        entries_view(s).contains_key(k) <==> (exists|i: int|
            0 <= i < s.len() && entry_addr(#[trigger] s[i].entry) == k),
    decreases s.len(),
{
    if s.len() > 0 {
        lemma_view_contains(s.drop_last(), k);
        if entry_addr(s.last().entry) == k {
            assert(entry_addr(s[s.len() - 1].entry) == k);
        } else {
            if entries_view(s).contains_key(k) {
                let i = choose|i: int|
                    0 <= i < s.drop_last().len() && entry_addr(#[trigger] s.drop_last()[i].entry)
                        == k;
                assert(s.drop_last()[i] == s[i]);
                assert(entry_addr(s[i].entry) == k);
            }
            if exists|i: int| 0 <= i < s.len() && entry_addr(#[trigger] s[i].entry) == k {
                let i = choose|i: int| 0 <= i < s.len() && entry_addr(#[trigger] s[i].entry) == k;
                assert(i < s.len() - 1);
                assert(s.drop_last()[i] == s[i]);
                assert(entry_addr(s.drop_last()[i].entry) == k);
            }
        }
    }
}

proof fn lemma_view_sel(s: Seq<StoredEntry>, i: int)
    requires
        addrs_unique(s),
        0 <= i < s.len(),
    ensures
        entries_view(s).contains_key(entry_addr(s[i].entry)),
        entries_view(s)[entry_addr(s[i].entry)] == stored_model(s[i]),
    decreases s.len(),
{
    if i == s.len() - 1 {
    } else {
        assert(entry_addr(s[i].entry) != entry_addr(s[s.len() - 1].entry));
        lemma_unique_drop_last(s);
        lemma_view_sel(s.drop_last(), i);
        assert(s.drop_last()[i] == s[i]);
    }
}

proof fn lemma_view_push(s: Seq<StoredEntry>, e: StoredEntry)
    ensures
        entries_view(s.push(e)) == entries_view(s).insert(entry_addr(e.entry), stored_model(e)),
{
    assert(s.push(e).drop_last() =~= s);
    assert(s.push(e).last() == e);
}

proof fn lemma_unique_push(s: Seq<StoredEntry>, e: StoredEntry)
    requires
        addrs_unique(s),
        !entries_view(s).contains_key(entry_addr(e.entry)),
    ensures
        addrs_unique(s.push(e)),
{
    lemma_view_contains(s, entry_addr(e.entry));
    assert forall|i: int, j: int| 0 <= i < j < s.push(e).len() implies entry_addr(
        s.push(e)[i].entry,
    ) != entry_addr(s.push(e)[j].entry) by {
        assert(s.push(e)[i] == s[i]);
        if j < s.len() {
            assert(s.push(e)[j] == s[j]);
        } else {
            assert(s.push(e)[j] == e);
        }
    }
}

proof fn lemma_view_remove(s: Seq<StoredEntry>, i: int)
    requires
        addrs_unique(s),
        0 <= i < s.len(),
    ensures
        entries_view(s.remove(i)) == entries_view(s).remove(entry_addr(s[i].entry)),
        addrs_unique(s.remove(i)),
    decreases s.len(),
{
    let k = entry_addr(s[i].entry);
    s.remove_ensures(i);
    assert forall|p: int, q: int| 0 <= p < q < s.remove(i).len() implies entry_addr(
        s.remove(i)[p].entry,
    ) != entry_addr(s.remove(i)[q].entry) by {
        let p0: int = if p < i { p } else { p + 1 };
        let q0: int = if q < i { q } else { q + 1 };
        assert(s.remove(i)[p] == s[p0]);
        assert(s.remove(i)[q] == s[q0]);
    }
    if i == s.len() - 1 {
        assert(s.remove(i) =~= s.drop_last());
        lemma_view_contains(s.drop_last(), k);
        assert forall|p: int| 0 <= p < s.drop_last().len() implies entry_addr(
            #[trigger] s.drop_last()[p].entry,
        ) != k by {
            assert(s.drop_last()[p] == s[p]);
        }
        assert(!entries_view(s.drop_last()).contains_key(k));
        assert(entries_view(s.drop_last()).insert(k, stored_model(s[i])).remove(k)
            =~= entries_view(s.drop_last()));
    } else {
        lemma_unique_drop_last(s);
        lemma_view_remove(s.drop_last(), i);
        s.drop_last().remove_ensures(i);
        assert(s.remove(i).len() == s.len() - 1);
        assert(s.remove(i).last() == s[s.len() - 1]);
        assert(s.remove(i).drop_last() =~= s.drop_last().remove(i));
        let klast = entry_addr(s[s.len() - 1].entry);
        assert(k != klast);
        assert(entries_view(s.remove(i)) == entries_view(s.drop_last().remove(i)).insert(
            klast,
            stored_model(s[s.len() - 1]),
        ));
        assert(entry_addr(s.drop_last()[i].entry) == k);
        assert(entries_view(s.drop_last()).remove(k).insert(klast, stored_model(s[s.len() - 1]))
            =~= entries_view(s.drop_last()).insert(klast, stored_model(s[s.len() - 1])).remove(k));
    }
}

/// The outcome that a create with these arguments has against this store
/// state: the error it returns, or success.
pub open spec fn create_outcome(
    m: Map<EntryAddr, EntryModel>,
    id: Seq<u8>,
    title: Seq<char>,
    message: Seq<char>,
    owner: Seq<u8>,
    balance: u64,
) -> Result<(), JournalError> {
    if !sizes_ok(id, title, message) {
        Err(JournalError::SizeLimitExceeded)
    } else if m.contains_key((id, owner)) {
        Err(JournalError::DuplicateEntry)
    } else if (balance as int) < required_space(id, title, message) {
        Err(JournalError::FundingShortfall)
    } else {
        Ok(())
    }
}

/// The record that a successful create with these arguments stores.
pub open spec fn created_model(
    id: Seq<u8>,
    title: Seq<char>,
    message: Seq<char>,
    owner: Seq<u8>,
) -> EntryModel {
    EntryModel { owner, id, title, message, held: required_space(id, title, message) as u64 }
}

/// The outcome that an update with these arguments has against this store
/// state.
pub open spec fn update_outcome(
    m: Map<EntryAddr, EntryModel>,
    id: Seq<u8>,
    title: Seq<char>,
    message: Seq<char>,
    owner: Seq<u8>,
    balance: u64,
) -> Result<(), JournalError> {
    if !sizes_ok(id, title, message) {
        Err(JournalError::SizeLimitExceeded)
    } else if !m.contains_key((id, owner)) {
        Err(JournalError::EntryNotFound)
    } else if balance + m[(id, owner)].held < required_space(id, title, message) {
        Err(JournalError::FundingShortfall)
    } else {
        Ok(())
    }
}

/// The record that a successful update leaves at the address: owner and
/// identifier are kept, title and message are replaced, and the held funds
/// match the resized record.
pub open spec fn updated_model(
    prev: EntryModel,
    title: Seq<char>,
    message: Seq<char>,
) -> EntryModel {
    EntryModel {
        owner: prev.owner,
        id: prev.id,
        title,
        message,
        held: required_space(prev.id, title, message) as u64,
    }
}

/// The caller's balance after a successful update: the held difference is
/// charged on growth and returned on shrinkage.
pub open spec fn update_balance(
    m: Map<EntryAddr, EntryModel>,
    id: Seq<u8>,
    title: Seq<char>,
    message: Seq<char>,
    owner: Seq<u8>,
    balance: u64,
) -> int {
    balance + m[(id, owner)].held - required_space(id, title, message)
}

/// The outcome that a delete with these arguments has against this store
/// state.
pub open spec fn delete_outcome(
    m: Map<EntryAddr, EntryModel>,
    id: Seq<u8>,
    owner: Seq<u8>,
) -> Result<(), JournalError> {
    if m.contains_key((id, owner)) {
        Ok(())
    } else {
        Err(JournalError::EntryNotFound)
    }
}

/// The journal store.  Its view is the map from each `(id, owner)` address to
/// the record stored there.
pub struct JournalStore {
    entries: Vec<StoredEntry>,
}

impl View for JournalStore {
    type V = Map<EntryAddr, EntryModel>;

    closed spec fn view(&self) -> Map<EntryAddr, EntryModel> {
        entries_view(self.entries@)
    }
}

impl JournalStore {
    /// Every address holds at most one record, and every record is sound.
    pub closed spec fn wf(&self) -> bool {
        addrs_unique(self.entries@) && (forall|i: int|
            0 <= i < self.entries@.len() ==> stored_ok(#[trigger] self.entries@[i]))
    }

    /// An empty store: no entry at any address.
    pub fn new() -> (r: JournalStore)
        ensures
            r@ == Map::<EntryAddr, EntryModel>::empty(),
            r.wf(),
    {
        JournalStore { entries: Vec::new() }
    }

    fn find_index(&self, id: &Vec<u8>, owner: &Pubkey) -> (r: Option<usize>)
        ensures
            match r {
                Some(i) => i < self.entries@.len() && entry_addr(self.entries@[i as int].entry)
                    == (id@, owner@),
                None => forall|j: int|
                    0 <= j < self.entries@.len() ==> entry_addr(#[trigger] self.entries@[j].entry)
                        != (id@, owner@),
            },
    {
        let mut i: usize = 0;
        while i < self.entries.len()
            invariant
                i <= self.entries@.len(),
                forall|j: int|
                    0 <= j < i ==> entry_addr(#[trigger] self.entries@[j].entry) != (id@, owner@),
            decreases self.entries@.len() - i,
        {
            let se = &self.entries[i];
            if id_eq(&se.entry.id, id) && pubkey_eq(&se.entry.owner, owner) {
                return Some(i);
            }
            i += 1;
        }
        None
    }

    /// Creates a new entry at the address derived from `id` and `caller`.
    ///
    /// On success the entry is stored with `caller` as its owner, its record
    /// holds the funds its space costs, and that cost is charged to
    /// `balance`.  On any error the store and the balance are untouched.
    pub fn create_journal_entry(
        &mut self,
        id: Vec<u8>,
        title: String,
        message: String,
        caller: Pubkey,
        balance: &mut u64,
    ) -> (r: Result<(), JournalError>)
        requires
            old(self).wf(),
        ensures
            final(self).wf(),
            r == create_outcome(old(self)@, id@, title@, message@, caller@, *old(balance)),
            r is Ok ==> final(self)@ == old(self)@.insert(
                (id@, caller@),
                created_model(id@, title@, message@, caller@),
            ) && *final(balance) == *old(balance) - required_space(id@, title@, message@),
            r is Err ==> final(self)@ == old(self)@ && *final(balance) == *old(balance),
    {
        if !check_sizes(&id, &title, &message) {
            return Err(JournalError::SizeLimitExceeded);
        }
        match self.find_index(&id, &caller) {
            Some(i) => {
                proof {
                    lemma_view_contains(self.entries@, (id@, caller@));
                }
                Err(JournalError::DuplicateEntry)
            },
            None => {
                proof {
                    lemma_view_contains(self.entries@, (id@, caller@));
                }
                let space = entry_space(&id, &title, &message);
                let cost = space as u64;
                if *balance < cost {
                    return Err(JournalError::FundingShortfall);
                }
                *balance = *balance - cost;
                let se = StoredEntry {
                    entry: JournalEntryState { owner: caller, id, title, message },
                    held: cost,
                };
                proof {
                    lemma_view_push(self.entries@, se);
                    lemma_unique_push(self.entries@, se);
                }
                let ghost prev = self.entries@;
                self.entries.push(se);
                proof {
                    assert forall|j: int| 0 <= j < self.entries@.len() implies stored_ok(
                        #[trigger] self.entries@[j],
                    ) by {
                        if j < prev.len() {
                            assert(self.entries@[j] == prev[j]);
                        } else {
                            assert(self.entries@[j] == se);
                        }
                    }
                }
                Ok(())
            },
        }
    }

    /// Replaces the title and message of the entry at the address derived
    /// from `id` and `caller`, resizing its record to fit.
    ///
    /// The owner and the identifier are never changed.  The held funds of the
    /// record are settled against `balance`: growth is charged, shrinkage is
    /// returned.  On any error the store and the balance are untouched.
    pub fn update_journal_entry(
        &mut self,
        id: Vec<u8>,
        title: String,
        message: String,
        caller: Pubkey,
        balance: &mut u64,
    ) -> (r: Result<(), JournalError>)
        requires
            old(self).wf(),
            *old(balance) + MAX_ENTRY_SPACE <= u64::MAX,
        ensures
            final(self).wf(),
            r == update_outcome(old(self)@, id@, title@, message@, caller@, *old(balance)),
            r is Ok ==> final(self)@ == old(self)@.insert(
                (id@, caller@),
                updated_model(old(self)@[(id@, caller@)], title@, message@),
            ) && *final(balance) == update_balance(
                old(self)@,
                id@,
                title@,
                message@,
                caller@,
                *old(balance),
            ),
            r is Ok ==> final(self)@.dom() == old(self)@.dom() && final(self)@[(id@, caller@)].owner
                == old(self)@[(id@, caller@)].owner && final(self)@[(id@, caller@)].id == old(
                self,
            )@[(id@, caller@)].id,
            r is Err ==> final(self)@ == old(self)@ && *final(balance) == *old(balance),
    {
        if !check_sizes(&id, &title, &message) {
            return Err(JournalError::SizeLimitExceeded);
        }
        let ghost k: EntryAddr = (id@, caller@);
        match self.find_index(&id, &caller) {
            None => {
                proof {
                    lemma_view_contains(self.entries@, k);
                }
                Err(JournalError::EntryNotFound)
            },
            Some(i) => {
                proof {
                    lemma_view_sel(self.entries@, i as int);
                }
                let space = entry_space(&id, &title, &message);
                let cost = space as u64;
                let held = self.entries[i].held;
                if cost > held && *balance < cost - held {
                    return Err(JournalError::FundingShortfall);
                }
                if cost > held {
                    *balance = *balance - (cost - held);
                } else {
                    *balance = *balance + (held - cost);
                }
                let ghost prev = self.entries@;
                let mut se = self.entries.remove(i);
                se.entry.title = title;
                se.entry.message = message;
                se.held = cost;
                proof {
                    lemma_view_remove(prev, i as int);
                    prev.remove_ensures(i as int);
                    assert forall|j: int| 0 <= j < self.entries@.len() implies stored_ok(
                        #[trigger] self.entries@[j],
                    ) by {
                        let j0: int = if j < i { j } else { j + 1 };
                        assert(self.entries@[j] == prev[j0]);
                    }
                    lemma_view_contains(self.entries@, k);
                    lemma_unique_push(self.entries@, se);
                    lemma_view_push(self.entries@, se);
                    assert(entries_view(prev).remove(k).insert(k, stored_model(se))
                        =~= entries_view(prev).insert(k, stored_model(se)));
                }
                let ghost mid = self.entries@;
                self.entries.push(se);
                proof {
                    assert forall|j: int| 0 <= j < self.entries@.len() implies stored_ok(
                        #[trigger] self.entries@[j],
                    ) by {
                        if j < mid.len() {
                            assert(self.entries@[j] == mid[j]);
                        } else {
                            assert(self.entries@[j] == se);
                        }
                    }
                    assert(final(self)@.dom() =~= old(self)@.dom());
                }
                Ok(())
            },
        }
    }

    /// Deletes the entry at the address derived from `id` and `caller`,
    /// freeing its record and returning the record's held funds to `balance`.
    ///
    /// After a successful delete the address is vacant again.  On an error
    /// the store and the balance are untouched.
    pub fn delete_journal_entry(
        &mut self,
        id: Vec<u8>,
        caller: Pubkey,
        balance: &mut u64,
    ) -> (r: Result<(), JournalError>)
        requires
            old(self).wf(),
            *old(balance) + MAX_ENTRY_SPACE <= u64::MAX,
        ensures
            final(self).wf(),
            r == delete_outcome(old(self)@, id@, caller@),
            r is Ok ==> final(self)@ == old(self)@.remove((id@, caller@)) && *final(balance)
                == *old(balance) + old(self)@[(id@, caller@)].held,
            r is Err ==> final(self)@ == old(self)@ && *final(balance) == *old(balance),
    {
        let ghost k: EntryAddr = (id@, caller@);
        match self.find_index(&id, &caller) {
            None => {
                proof {
                    lemma_view_contains(self.entries@, k);
                }
                Err(JournalError::EntryNotFound)
            },
            Some(i) => {
                proof {
                    lemma_view_sel(self.entries@, i as int);
                }
                let ghost prev = self.entries@;
                let se = self.entries.remove(i);
                *balance = *balance + se.held;
                proof {
                    lemma_view_remove(prev, i as int);
                    prev.remove_ensures(i as int);
                    assert forall|j: int| 0 <= j < self.entries@.len() implies stored_ok(
                        #[trigger] self.entries@[j],
                    ) by {
                        let j0: int = if j < i { j } else { j + 1 };
                        assert(self.entries@[j] == prev[j0]);
                    }
                }
                Ok(())
            },
        }
    }

    /// Returns the entry stored at the address derived from `id` and
    /// `caller`, or nothing when the address is vacant.
    pub fn get_entry(&self, id: &Vec<u8>, caller: &Pubkey) -> (r: Option<&JournalEntryState>)
        requires
            self.wf(),
        ensures
            match r {
                Some(e) => self@.contains_key((id@, caller@)) && e.owner@ == self@[(
                    id@,
                    caller@,
                )].owner && e.id@ == self@[(id@, caller@)].id && e.title@ == self@[(
                    id@,
                    caller@,
                )].title && e.message@ == self@[(id@, caller@)].message,
                None => !self@.contains_key((id@, caller@)),
            },
    {
        match self.find_index(id, caller) {
            Some(i) => {
                proof {
                    lemma_view_sel(self.entries@, i as int);
                }
                Some(&self.entries[i].entry)
            },
            None => {
                proof {
                    lemma_view_contains(self.entries@, (id@, caller@));
                }
                None
            },
        }
    }

    /// Whether an entry exists at the address derived from `id` and `caller`.
    pub fn contains_entry(&self, id: &Vec<u8>, caller: &Pubkey) -> (r: bool)
        requires
            self.wf(),
        ensures
            r == self@.contains_key((id@, caller@)),
    {
        self.get_entry(id, caller).is_some()
    }
}

} // verus!
