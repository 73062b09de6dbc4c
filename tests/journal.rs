use pda_ledger::address::{derive_address, text_seeds, Address};
use pda_ledger::error::LedgerError;
use pda_ledger::journal::{
    create_journal_entry, delete_journal_entry, read_journal_entry, update_journal_entry,
    CreateEntry, DeleteEntry, JournalEntryState, JournalLedger, UpdateEntry, JOURNAL_ENTRY_SPACE,
};

fn ledger() -> JournalLedger {
    JournalLedger::new(Address::new([42u8; 32]))
}

fn owner() -> Address {
    Address::new([1u8; 32])
}

fn other() -> Address {
    Address::new([2u8; 32])
}

fn entry_address(l: &JournalLedger, title: &str, who: &Address) -> Address {
    let mut seeds = text_seeds(title);
    seeds.push(who.to_seed());
    derive_address(&l.program_id, &seeds).unwrap().0
}

fn create(l: &mut JournalLedger, who: Address, title: &str, message: &str) -> Result<(), LedgerError> {
    let ctx = CreateEntry { signer: who, journal_entry: entry_address(l, title, &who) };
    create_journal_entry(l, &ctx, title.to_string(), message.to_string())
}

fn update(l: &mut JournalLedger, who: Address, at: Address, title: &str, message: &str) -> Result<(), LedgerError> {
    let ctx = UpdateEntry { signer: who, journal_entry: at };
    update_journal_entry(l, &ctx, title.to_string(), message.to_string())
}

fn read<'a>(l: &'a JournalLedger, who: &Address, title: &str) -> Result<&'a JournalEntryState, LedgerError> {
    read_journal_entry(l, who, &title.to_string())
}

#[test]
fn entry_space_counts_every_field() {
    assert_eq!(JournalEntryState::INIT_SPACE, 1090);
    assert_eq!(JOURNAL_ENTRY_SPACE, 1098);
}

#[test]
fn create_then_read() {
    let mut l = ledger();
    assert_eq!(create(&mut l, owner(), "Day1", "hello"), Ok(()));
    let e = read(&l, &owner(), "Day1").unwrap();
    assert_eq!(e.owner.bytes, owner().bytes);
    assert_eq!(e.title, "Day1");
    assert_eq!(e.message, "hello");
    let at = entry_address(&l, "Day1", &owner());
    let acc = l.entries.get(&at).unwrap();
    assert_eq!(acc.space, JOURNAL_ENTRY_SPACE);
    assert_eq!(l.entries.len(), 1);
}

#[test]
fn read_missing_entry_not_initialized() {
    let l = ledger();
    assert_eq!(read(&l, &owner(), "Day1").err(), Some(LedgerError::NotInitialized));
}

#[test]
fn create_twice_already_initialized() {
    let mut l = ledger();
    assert_eq!(create(&mut l, owner(), "Day1", "hello"), Ok(()));
    assert_eq!(create(&mut l, owner(), "Day1", "again"), Err(LedgerError::AlreadyInitialized));
    assert_eq!(read(&l, &owner(), "Day1").unwrap().message, "hello");
}

#[test]
fn same_title_other_owner_is_another_entry() {
    let mut l = ledger();
    assert_eq!(create(&mut l, owner(), "Day1", "mine"), Ok(()));
    assert_eq!(create(&mut l, other(), "Day1", "theirs"), Ok(()));
    assert_eq!(read(&l, &owner(), "Day1").unwrap().message, "mine");
    assert_eq!(read(&l, &other(), "Day1").unwrap().message, "theirs");
}

#[test]
fn create_at_wrong_address_mismatch() {
    let mut l = ledger();
    let wrong = entry_address(&l, "Day2", &owner());
    let ctx = CreateEntry { signer: owner(), journal_entry: wrong };
    let r = create_journal_entry(&mut l, &ctx, "Day1".to_string(), "hello".to_string());
    assert_eq!(r, Err(LedgerError::AddressMismatch));
    assert_eq!(l.entries.len(), 0);
}

#[test]
fn update_changes_message_only() {
    let mut l = ledger();
    create(&mut l, owner(), "Day1", "hello").unwrap();
    let at = entry_address(&l, "Day1", &owner());
    assert_eq!(update(&mut l, owner(), at, "Day1", "world"), Ok(()));
    let e = read(&l, &owner(), "Day1").unwrap();
    assert_eq!(e.message, "world");
    assert_eq!(e.title, "Day1");
    assert_eq!(e.owner.bytes, owner().bytes);
}

#[test]
fn update_by_other_signer_unauthorized() {
    let mut l = ledger();
    create(&mut l, owner(), "Day1", "hello").unwrap();
    let at = entry_address(&l, "Day1", &owner());
    assert_eq!(update(&mut l, other(), at, "Day1", "world"), Err(LedgerError::Unauthorized));
    assert_eq!(read(&l, &owner(), "Day1").unwrap().message, "hello");
}

#[test]
fn update_missing_entry_not_initialized() {
    let mut l = ledger();
    let at = entry_address(&l, "Day1", &owner());
    assert_eq!(update(&mut l, owner(), at, "Day1", "world"), Err(LedgerError::NotInitialized));
}

#[test]
fn update_with_other_title_mismatch() {
    let mut l = ledger();
    create(&mut l, owner(), "Day1", "hello").unwrap();
    let at = entry_address(&l, "Day1", &owner());
    assert_eq!(update(&mut l, owner(), at, "Day2", "world"), Err(LedgerError::AddressMismatch));
}

#[test]
fn close_then_recreate() {
    let mut l = ledger();
    create(&mut l, owner(), "Day1", "hello").unwrap();
    let at = entry_address(&l, "Day1", &owner());
    let ctx = DeleteEntry { signer: owner(), journal_entry: at };
    assert_eq!(delete_journal_entry(&mut l, &ctx, "Day1".to_string()), Ok(()));
    assert_eq!(read(&l, &owner(), "Day1").err(), Some(LedgerError::NotInitialized));
    assert_eq!(create(&mut l, owner(), "Day1", "new"), Ok(()));
    assert_eq!(read(&l, &owner(), "Day1").unwrap().message, "new");
}

#[test]
fn delete_by_other_signer_unauthorized() {
    let mut l = ledger();
    create(&mut l, owner(), "Day1", "hello").unwrap();
    let at = entry_address(&l, "Day1", &owner());
    let ctx = DeleteEntry { signer: other(), journal_entry: at };
    assert_eq!(delete_journal_entry(&mut l, &ctx, "Day1".to_string()), Err(LedgerError::Unauthorized));
    assert_eq!(l.entries.len(), 1);
}

#[test]
fn delete_missing_not_initialized() {
    let mut l = ledger();
    let at = entry_address(&l, "Day1", &owner());
    let ctx = DeleteEntry { signer: owner(), journal_entry: at };
    assert_eq!(delete_journal_entry(&mut l, &ctx, "Day1".to_string()), Err(LedgerError::NotInitialized));
}

#[test]
fn message_at_limit_accepted_over_limit_refused() {
    let mut l = ledger();
    let at_limit = "m".repeat(1000);
    assert_eq!(create(&mut l, owner(), "Day1", &at_limit), Ok(()));
    let over = "m".repeat(1001);
    assert_eq!(create(&mut l, owner(), "Day2", &over), Err(LedgerError::SizeExceeded));
    let at = entry_address(&l, "Day1", &owner());
    assert_eq!(update(&mut l, owner(), at, "Day1", &over), Err(LedgerError::SizeExceeded));
}

#[test]
fn title_over_limit_refused() {
    let mut l = ledger();
    let over = "t".repeat(51);
    let ctx = CreateEntry { signer: owner(), journal_entry: owner() };
    let r = create_journal_entry(&mut l, &ctx, over, "hello".to_string());
    assert_eq!(r, Err(LedgerError::SizeExceeded));
}

#[test]
fn title_at_limit_accepted() {
    let mut l = ledger();
    let title = "t".repeat(50);
    assert_eq!(create(&mut l, owner(), &title, "hello"), Ok(()));
    let e = read(&l, &owner(), &title).unwrap();
    assert_eq!(e.title, title);
    assert_eq!(e.message, "hello");
    let at = entry_address(&l, &title, &owner());
    assert_eq!(update(&mut l, owner(), at, &title, "world"), Ok(()));
    assert_eq!(read(&l, &owner(), &title).unwrap().message, "world");
}

#[test]
fn short_title_keeps_single_seed_address() {
    let l = ledger();
    let title = "t".repeat(32);
    let single = vec![title.clone().into_bytes(), owner().to_seed()];
    let expected = derive_address(&l.program_id, &single).unwrap().0;
    assert_eq!(entry_address(&l, &title, &owner()).bytes, expected.bytes);
}

#[test]
fn message_length_counts_bytes() {
    let mut l = ledger();
    let wide = "é".repeat(500);
    assert_eq!(create(&mut l, owner(), "Day1", &wide), Ok(()));
    let wider = format!("{}a", wide);
    assert_eq!(create(&mut l, owner(), "Day2", &wider), Err(LedgerError::SizeExceeded));
}
