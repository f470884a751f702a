//! The persisted entity of the store: a journal entry and its size rules.
//!
//! An entry holds the public key of its owner, a caller-chosen byte
//! identifier, a title and a message.  Its persisted layout is a fixed header
//! followed by the owner key and the three variable fields, so the space a
//! record needs is a direct function of the field lengths.  The limits on
//! those lengths, and the space computation, are stated here as spec
//! functions and proved of the executable checks.

use vstd::prelude::*;

verus! {

use vstd::string::StringSliceAdditionalSpecFns;
use vstd::utf8::encode_utf8;

/// Number of bytes of the fixed discriminator header that precedes every
/// persisted record.
pub const HEADER_SIZE: usize = 8;

/// Number of bytes of an owner's public key.
pub const OWNER_SIZE: usize = 32;

/// Maximum length, in bytes, of an entry's identifier.
pub const MAX_ID_LEN: usize = 16;

/// Maximum length, in UTF-8 bytes, of an entry's title.
pub const MAX_TITLE_LEN: usize = 50;

/// Maximum length, in UTF-8 bytes, of an entry's message.
pub const MAX_MESSAGE_LEN: usize = 1000;

/// The largest space any record can occupy: header, owner key, and the three
/// variable fields at their maximum lengths.
pub const MAX_ENTRY_SPACE: usize = HEADER_SIZE + OWNER_SIZE + MAX_ID_LEN + MAX_TITLE_LEN
    + MAX_MESSAGE_LEN;

/// The public key that identifies the party calling an operation and the
/// owner of each entry.  The host environment authenticates it before the
/// store runs; the store only compares and records it.
#[derive(Clone, Copy, Debug)]
pub struct Pubkey {
    pub bytes: [u8; 32],
}

impl View for Pubkey {
    type V = Seq<u8>;

    open spec fn view(&self) -> Seq<u8> {
        self.bytes@
    }
}

impl Pubkey {
    pub fn new(bytes: [u8; 32]) -> (r: Pubkey)
        ensures
            r@ == bytes@,
    {
        Pubkey { bytes }
    }
}

/// Compares two public keys byte for byte.
pub fn pubkey_eq(a: &Pubkey, b: &Pubkey) -> (r: bool)
    ensures
        r == (a@ == b@),
{
    let mut i: usize = 0;
    while i < 32
        invariant
            i <= 32,
            forall|j: int| 0 <= j < i ==> a.bytes@[j] == b.bytes@[j],
        decreases 32 - i,
    {
        if a.bytes[i] != b.bytes[i] {
            assert(a@[i as int] != b@[i as int]);
            return false;
        }
        i += 1;
    }
    proof {
        assert(a@ =~= b@);
    }
    true
}

/// Compares two identifiers byte for byte.
pub fn id_eq(a: &Vec<u8>, b: &Vec<u8>) -> (r: bool)
    ensures
        r == (a@ == b@),
{
    if a.len() != b.len() {
        return false;
    }
    let mut i: usize = 0;
    while i < a.len()
        invariant
            i <= a@.len(),
            a@.len() == b@.len(),
            forall|j: int| 0 <= j < i ==> a@[j] == b@[j],
        decreases a@.len() - i,
    {
        if a[i] != b[i] {
            assert(a@[i as int] != b@[i as int]);
            return false;
        }
        i += 1;
    }
    proof {
        assert(a@ =~= b@);
    }
    true
}

/// One journal entry as persisted: the owner key is set at creation and never
/// changes, the identifier addresses the entry together with the owner, and
/// the title and message are the mutable payload.
#[derive(Debug)]
pub struct JournalEntryState {
    pub owner: Pubkey,
    pub id: Vec<u8>,
    pub title: String,
    pub message: String,
}

/// The error that an operation reports when it rejects a call.  Every
/// operation either fully succeeds or returns one of these with no partial
/// mutation.
#[derive(Clone, Copy, Debug, PartialEq, Eq)]
pub enum JournalError {
    /// Create targets an `(id, owner)` address that already holds an entry.
    DuplicateEntry,
    /// Update or delete targets an `(id, owner)` address with no entry.
    EntryNotFound,
    /// The caller's balance cannot cover the allocation or resize cost.
    FundingShortfall,
    /// The identifier, title or message exceeds its maximum length.
    SizeLimitExceeded,
}

/// Whether an identifier is within its size limit.
pub open spec fn valid_id(id: Seq<u8>) -> bool {
    id.len() <= MAX_ID_LEN
}

/// Whether a title is within its size limit, counted in UTF-8 bytes.
pub open spec fn valid_title(title: Seq<char>) -> bool {
    encode_utf8(title).len() <= MAX_TITLE_LEN
}

/// Whether a message is within its size limit, counted in UTF-8 bytes.
pub open spec fn valid_message(message: Seq<char>) -> bool {
    encode_utf8(message).len() <= MAX_MESSAGE_LEN
}

/// Whether all three variable fields are within their size limits.
pub open spec fn sizes_ok(id: Seq<u8>, title: Seq<char>, message: Seq<char>) -> bool {
    valid_id(id) && valid_title(title) && valid_message(message)
}

/// The space, in bytes, that a record with these fields occupies: the fixed
/// header, the owner key, and the three fields at their current lengths.
pub open spec fn required_space(id: Seq<u8>, title: Seq<char>, message: Seq<char>) -> int {
    HEADER_SIZE + OWNER_SIZE + id.len() + encode_utf8(title).len() + encode_utf8(message).len()
}

/// The fixed discriminator header that opens every persisted record.  Its
/// content is the storage layer's concern; here it is all zero bytes.
pub open spec fn header_bytes() -> Seq<u8> {
    Seq::new(HEADER_SIZE as nat, |i: int| 0u8)
}

/// The persisted byte image of a record: the fixed header, then the owner
/// key, the identifier, and the UTF-8 bytes of the title and the message.
pub open spec fn record_bytes(
    owner: Seq<u8>,
    id: Seq<u8>,
    title: Seq<char>,
    message: Seq<char>,
) -> Seq<u8> {
    header_bytes() + owner + id + encode_utf8(title) + encode_utf8(message)
}

/// Law: a record's storage exactly fits its fields.  The byte image of an
/// entry is as long as the space its fields require, so the funds a record
/// holds pay for precisely the bytes it persists.
pub proof fn lemma_record_exactly_fits(
    owner: Seq<u8>,
    id: Seq<u8>,
    title: Seq<char>,
    message: Seq<char>,
)
    requires
        owner.len() == OWNER_SIZE,
    ensures
        record_bytes(owner, id, title, message).len() == required_space(id, title, message),
{
}

fn append_bytes(dst: &mut Vec<u8>, src: &[u8])
    ensures
        final(dst)@ == old(dst)@ + src@,
{
    let mut i: usize = 0;
    while i < src.len()
        invariant
            i <= src@.len(),
            dst@ == old(dst)@ + src@.subrange(0, i as int),
        decreases src@.len() - i,
    {
        dst.push(src[i]);
        proof {
            assert(old(dst)@ + src@.subrange(0, i as int) + seq![src@[i as int]] =~= old(dst)@
                + src@.subrange(0, i + 1));
        }
        i += 1;
    }
    proof {
        assert(src@.subrange(0, src@.len() as int) =~= src@);
    }
}

impl JournalEntryState {
    /// Whether every field of the entry is within its size limit.
    pub open spec fn valid(self) -> bool {
        sizes_ok(self.id@, self.title@, self.message@)
    }

    /// Serialises the entry into its persisted layout.
    pub fn encode_record(&self) -> (r: Vec<u8>)
        ensures
            r@ == record_bytes(self.owner@, self.id@, self.title@, self.message@),
    {
        let mut out: Vec<u8> = Vec::new();
        let mut i: usize = 0;
        while i < HEADER_SIZE
            invariant
                i <= HEADER_SIZE,
                out@.len() == i,
                forall|j: int| 0 <= j < i ==> out@[j] == 0u8,
            decreases HEADER_SIZE - i,
        {
            out.push(0u8);
            i += 1;
        }
        proof {
            assert(out@ =~= header_bytes());
        }
        append_bytes(&mut out, self.owner.bytes.as_slice());
        append_bytes(&mut out, self.id.as_slice());
        append_bytes(&mut out, self.title.as_str().as_bytes());
        append_bytes(&mut out, self.message.as_str().as_bytes());
        out
    }
}

/// The length of a string in UTF-8 bytes.
pub fn byte_len(s: &String) -> (n: usize)
    ensures
        n == encode_utf8(s@).len(),
{
    let b = s.as_str().as_bytes();
    proof {
        assert(b@ == encode_utf8(s@));
    }
    b.len()
}

/// Checks the three size limits that every create and update enforces.
pub fn check_sizes(id: &Vec<u8>, title: &String, message: &String) -> (r: bool)
    ensures
        r == sizes_ok(id@, title@, message@),
{
    id.len() <= MAX_ID_LEN && byte_len(title) <= MAX_TITLE_LEN && byte_len(message)
        <= MAX_MESSAGE_LEN
}

/// The space a record with these fields occupies.
pub fn entry_space(id: &Vec<u8>, title: &String, message: &String) -> (n: usize)
    requires
        sizes_ok(id@, title@, message@),
    ensures
        n == required_space(id@, title@, message@),
        n <= MAX_ENTRY_SPACE,
{
    HEADER_SIZE + OWNER_SIZE + id.len() + byte_len(title) + byte_len(message)
}

} // verus!
