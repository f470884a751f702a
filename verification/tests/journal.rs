use journal_app::{JournalError, JournalStore, Pubkey, HEADER_SIZE, OWNER_SIZE};

fn pk(b: u8) -> Pubkey {
    Pubkey::new([b; 32])
}

#[test]
fn create_delete_create_reuses_address() {
    let mut st = JournalStore::new();
    let mut bal: u64 = 10_000;
    let a = pk(1);
    let r = st.create_journal_entry(vec![1, 2, 3], "Day 1".to_string(), "Hello".to_string(), a, &mut bal);
    assert_eq!(r, Ok(()));
    let r = st.delete_journal_entry(vec![1, 2, 3], a, &mut bal);
    assert_eq!(r, Ok(()));
    assert_eq!(bal, 10_000);
    let r = st.create_journal_entry(vec![1, 2, 3], "Day 1".to_string(), "Hello".to_string(), a, &mut bal);
    assert_eq!(r, Ok(()));
}

#[test]
fn second_create_same_pair_is_duplicate() {
    let mut st = JournalStore::new();
    let mut bal: u64 = 10_000;
    let a = pk(1);
    let r = st.create_journal_entry(vec![4, 5], "T".to_string(), "M".to_string(), a, &mut bal);
    assert_eq!(r, Ok(()));
    let bal_before = bal;
    let r = st.create_journal_entry(vec![4, 5], "Other".to_string(), "Text".to_string(), a, &mut bal);
    assert_eq!(r, Err(JournalError::DuplicateEntry));
    assert_eq!(bal, bal_before);
}

#[test]
fn update_changes_only_title_and_message() {
    let mut st = JournalStore::new();
    let mut bal: u64 = 10_000;
    let a = pk(7);
    let r = st.create_journal_entry(vec![9], "T".to_string(), "M".to_string(), a, &mut bal);
    assert_eq!(r, Ok(()));
    let r = st.update_journal_entry(vec![9], "T2".to_string(), "M2".to_string(), a, &mut bal);
    assert_eq!(r, Ok(()));
    let e = st.get_entry(&vec![9], &a).expect("entry must exist after update");
    assert_eq!(e.owner.bytes, [7u8; 32]);
    assert_eq!(e.id, vec![9]);
    assert_eq!(e.title, "T2");
    assert_eq!(e.message, "M2");
}

#[test]
fn update_missing_entry_is_not_found() {
    let mut st = JournalStore::new();
    let mut bal: u64 = 10_000;
    let r = st.update_journal_entry(vec![1], "T".to_string(), "M".to_string(), pk(1), &mut bal);
    assert_eq!(r, Err(JournalError::EntryNotFound));
    assert_eq!(bal, 10_000);
}

#[test]
fn delete_missing_entry_is_not_found() {
    let mut st = JournalStore::new();
    let mut bal: u64 = 10_000;
    let r = st.delete_journal_entry(vec![1], pk(1), &mut bal);
    assert_eq!(r, Err(JournalError::EntryNotFound));
    assert_eq!(bal, 10_000);
}

#[test]
fn oversized_id_is_rejected() {
    let mut st = JournalStore::new();
    let mut bal: u64 = 10_000;
    let r = st.create_journal_entry(vec![0; 17], "T".to_string(), "M".to_string(), pk(1), &mut bal);
    assert_eq!(r, Err(JournalError::SizeLimitExceeded));
    assert_eq!(bal, 10_000);
}

#[test]
fn oversized_title_is_rejected() {
    let mut st = JournalStore::new();
    let mut bal: u64 = 10_000;
    let title: String = "x".repeat(51);
    let r = st.create_journal_entry(vec![1], title, "M".to_string(), pk(1), &mut bal);
    assert_eq!(r, Err(JournalError::SizeLimitExceeded));
}

#[test]
fn oversized_message_is_rejected_on_update() {
    let mut st = JournalStore::new();
    let mut bal: u64 = 10_000;
    let r = st.create_journal_entry(vec![1], "T".to_string(), "M".to_string(), pk(1), &mut bal);
    assert_eq!(r, Ok(()));
    let message: String = "y".repeat(1001);
    let r = st.update_journal_entry(vec![1], "T".to_string(), message, pk(1), &mut bal);
    assert_eq!(r, Err(JournalError::SizeLimitExceeded));
}

#[test]
fn title_limit_counts_utf8_bytes() {
    let mut st = JournalStore::new();
    let mut bal: u64 = 10_000;
    // 26 two-byte characters encode to 52 bytes, over the 50-byte limit.
    let title: String = "\u{e9}".repeat(26);
    let r = st.create_journal_entry(vec![1], title, "M".to_string(), pk(1), &mut bal);
    assert_eq!(r, Err(JournalError::SizeLimitExceeded));
}

#[test]
fn largest_sizes_are_accepted() {
    let mut st = JournalStore::new();
    let mut bal: u64 = 10_000;
    let r = st.create_journal_entry(
        vec![0; 16],
        "t".repeat(50),
        "m".repeat(1000),
        pk(1),
        &mut bal,
    );
    assert_eq!(r, Ok(()));
    assert_eq!(bal, 10_000 - (HEADER_SIZE + OWNER_SIZE + 16 + 50 + 1000) as u64);
}

#[test]
fn create_without_funds_is_shortfall() {
    let mut st = JournalStore::new();
    let mut bal: u64 = 10;
    let r = st.create_journal_entry(vec![1], "T".to_string(), "M".to_string(), pk(1), &mut bal);
    assert_eq!(r, Err(JournalError::FundingShortfall));
    assert_eq!(bal, 10);
    assert!(st.get_entry(&vec![1], &pk(1)).is_none());
}

#[test]
fn growing_update_without_funds_is_shortfall() {
    let mut st = JournalStore::new();
    let mut bal: u64 = 43;
    // Header + owner + one id byte + one title byte + one message byte = 43.
    let r = st.create_journal_entry(vec![1], "T".to_string(), "M".to_string(), pk(1), &mut bal);
    assert_eq!(r, Ok(()));
    assert_eq!(bal, 0);
    let r = st.update_journal_entry(vec![1], "Bigger".to_string(), "M".to_string(), pk(1), &mut bal);
    assert_eq!(r, Err(JournalError::FundingShortfall));
    let e = st.get_entry(&vec![1], &pk(1)).expect("entry must survive a failed update");
    assert_eq!(e.title, "T");
}

#[test]
fn shrinking_update_refunds_the_difference() {
    let mut st = JournalStore::new();
    let mut bal: u64 = 10_000;
    let r = st.create_journal_entry(vec![1], "longtitle".to_string(), "M".to_string(), pk(1), &mut bal);
    assert_eq!(r, Ok(()));
    let before = bal;
    let r = st.update_journal_entry(vec![1], "t".to_string(), "M".to_string(), pk(1), &mut bal);
    assert_eq!(r, Ok(()));
    // "longtitle" is nine bytes, "t" is one: eight bytes come back.
    assert_eq!(bal, before + 8);
}

#[test]
fn two_owners_same_id_coexist() {
    let mut st = JournalStore::new();
    let mut bal_a: u64 = 10_000;
    let mut bal_b: u64 = 10_000;
    let a = pk(1);
    let b = pk(2);
    let r = st.create_journal_entry(vec![1, 2, 3], "Day 1".to_string(), "Hello".to_string(), a, &mut bal_a);
    assert_eq!(r, Ok(()));
    let r = st.create_journal_entry(vec![1, 2, 3], "X".to_string(), "Y".to_string(), b, &mut bal_b);
    assert_eq!(r, Ok(()));
    let ea = st.get_entry(&vec![1, 2, 3], &a).expect("owner A's entry");
    let eb = st.get_entry(&vec![1, 2, 3], &b).expect("owner B's entry");
    assert_eq!(ea.title, "Day 1");
    assert_eq!(ea.message, "Hello");
    assert_eq!(ea.owner.bytes, [1u8; 32]);
    assert_eq!(eb.title, "X");
    assert_eq!(eb.message, "Y");
    assert_eq!(eb.owner.bytes, [2u8; 32]);
}

#[test]
fn create_update_delete_lifecycle() {
    let mut st = JournalStore::new();
    let mut bal: u64 = 10_000;
    let a = pk(1);
    let r = st.create_journal_entry(vec![9], "T".to_string(), "M".to_string(), a, &mut bal);
    assert_eq!(r, Ok(()));
    let r = st.update_journal_entry(vec![9], "T2".to_string(), "M2".to_string(), a, &mut bal);
    assert_eq!(r, Ok(()));
    let e = st.get_entry(&vec![9], &a).expect("entry must exist");
    assert_eq!(e.title, "T2");
    assert_eq!(e.message, "M2");
    assert_eq!(e.owner.bytes, [1u8; 32]);
    assert_eq!(e.id, vec![9]);
    let r = st.delete_journal_entry(vec![9], a, &mut bal);
    assert_eq!(r, Ok(()));
    assert_eq!(bal, 10_000);
    let r = st.update_journal_entry(vec![9], "T3".to_string(), "M3".to_string(), a, &mut bal);
    assert_eq!(r, Err(JournalError::EntryNotFound));
}

#[test]
fn empty_id_and_empty_text_are_valid() {
    let mut st = JournalStore::new();
    let mut bal: u64 = 10_000;
    let r = st.create_journal_entry(Vec::new(), String::new(), String::new(), pk(3), &mut bal);
    assert_eq!(r, Ok(()));
    assert_eq!(bal, 10_000 - (HEADER_SIZE + OWNER_SIZE) as u64);
    assert!(st.contains_entry(&Vec::new(), &pk(3)));
}

#[test]
fn create_charges_exact_space() {
    let mut st = JournalStore::new();
    let mut bal: u64 = 10_000;
    let r = st.create_journal_entry(vec![1, 2], "abc".to_string(), "defgh".to_string(), pk(1), &mut bal);
    assert_eq!(r, Ok(()));
    assert_eq!(bal, 10_000 - (HEADER_SIZE + OWNER_SIZE + 2 + 3 + 5) as u64);
}

#[test]
fn record_layout_is_header_owner_id_title_message() {
    let mut st = JournalStore::new();
    let mut bal: u64 = 10_000;
    let r = st.create_journal_entry(vec![9], "T".to_string(), "M".to_string(), pk(1), &mut bal);
    assert_eq!(r, Ok(()));
    let e = st.get_entry(&vec![9], &pk(1)).expect("entry must exist");
    let bytes = e.encode_record();
    let mut expected = vec![0u8; HEADER_SIZE];
    expected.extend_from_slice(&[1u8; 32]);
    expected.push(9);
    expected.push(b'T');
    expected.push(b'M');
    assert_eq!(bytes, expected);
    // The record's byte image is exactly as long as the space it was charged.
    assert_eq!(bytes.len() as u64, 10_000 - bal);
}
