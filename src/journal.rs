use crate::address::{
    address_check, check_address, derive_address, derive_spec, lemma_text_chunks_limits,
    pda_of, push_text_seeds, seeds_within_limits, text_chunks, Address,
};
use crate::error::LedgerError;
use crate::slots::{
    addresses_unique, holds, index_of, lemma_push_keeps_others, lemma_push_unique, lemma_remove_unique, lemma_slot_at_index,
    lemma_update_unique, slot_at, Account, SlotTable,
};
use vstd::prelude::*;
use vstd::utf8::encode_utf8;

verus! {

/// Bytes of the type discriminator that opens every slot.
pub const DISCRIMINATOR_LEN: usize = 8;

/// Largest title, in UTF-8 bytes.
pub const MAX_TITLE_LEN: usize = 50;

/// Largest message, in UTF-8 bytes.
pub const MAX_MESSAGE_LEN: usize = 1000;

/// A journal entry, stored at the address derived from `[title, owner]`.
pub struct JournalEntryState {
    pub owner: Address,
    pub title: String,
    pub message: String,
}

impl JournalEntryState {
    /// Bytes of the record at its largest: the owner, then each bounded
    /// string as a four-byte length and its largest contents.
    pub const INIT_SPACE: usize = 32 + (4 + 50) + (4 + 1000);
}

/// Bytes allocated to a journal entry's slot.
pub const JOURNAL_ENTRY_SPACE: usize = 8 + JournalEntryState::INIT_SPACE;

/// The slots that `create_journal_entry` is handed: the signer, who pays
/// and becomes the owner, and the entry's address.
pub struct CreateEntry {
    pub signer: Address,
    pub journal_entry: Address,
}

/// The slots that `update_journal_entry` is handed.
pub struct UpdateEntry {
    pub signer: Address,
    pub journal_entry: Address,
}

/// The slots that `delete_journal_entry` is handed.
pub struct DeleteEntry {
    pub signer: Address,
    pub journal_entry: Address,
}

/// The journal program: its identity and the entries it owns.
pub struct JournalLedger {
    pub program_id: Address,
    pub entries: SlotTable<JournalEntryState>,
}

pub type JournalSlots = Seq<Account<JournalEntryState>>;

/// The seeds of a journal entry's address: the title's bytes, in pieces
/// that each fit in a seed, then the owner.
pub open spec fn entry_seeds(title: Seq<char>, owner: Seq<u8>) -> Seq<Seq<u8>> {
    text_chunks(encode_utf8(title)).push(owner)
}

pub open spec fn title_fits(title: Seq<char>) -> bool {
    encode_utf8(title).len() <= MAX_TITLE_LEN
}

pub open spec fn message_fits(message: Seq<char>) -> bool {
    encode_utf8(message).len() <= MAX_MESSAGE_LEN
}

/// What creating an entry gives: the result and the entries after it.
pub open spec fn create_entry_spec(
    program: Seq<u8>,
    signer: Address,
    supplied: Address,
    title: String,
    message: String,
    slots: JournalSlots,
) -> (Result<(), LedgerError>, JournalSlots) {
    if !title_fits(title@) || !message_fits(message@) {
        (Err(LedgerError::SizeExceeded), slots)
    } else {
        match address_check(program, entry_seeds(title@, signer@), supplied) {
            Err(e) => (Err(e), slots),
            Ok(bump) => if holds(slots, supplied@) {
                (Err(LedgerError::AlreadyInitialized), slots)
            } else {
                (
                    Ok(()),
                    slots.push(
                        Account {
                            address: supplied,
                            bump,
                            space: JOURNAL_ENTRY_SPACE,
                            data: JournalEntryState { owner: signer, title, message },
                        },
                    ),
                )
            },
        }
    }
}

/// What updating an entry's message gives: the result and the entries
/// after it. Title and owner stay as they were.
pub open spec fn update_entry_spec(
    program: Seq<u8>,
    signer: Address,
    supplied: Address,
    title: String,
    message: String,
    slots: JournalSlots,
) -> (Result<(), LedgerError>, JournalSlots) {
    if !title_fits(title@) || !message_fits(message@) {
        (Err(LedgerError::SizeExceeded), slots)
    } else if !holds(slots, supplied@) {
        (Err(LedgerError::NotInitialized), slots)
    } else {
        let i = index_of(slots, supplied@);
        let cur = slots[i];
        if cur.data.owner@ != signer@ {
            (Err(LedgerError::Unauthorized), slots)
        } else {
            match address_check(program, entry_seeds(title@, signer@), supplied) {
                Err(e) => (Err(e), slots),
                Ok(_) => {
                    (
                        Ok(()),
                        slots.update(
                            i,
                            Account {
                                address: cur.address,
                                bump: cur.bump,
                                space: JOURNAL_ENTRY_SPACE,
                                data: JournalEntryState {
                                    owner: cur.data.owner,
                                    title: cur.data.title,
                                    message,
                                },
                            },
                        ),
                    )
                },
            }
        }
    }
}

/// What closing an entry gives: the result and the entries after it.
pub open spec fn delete_entry_spec(
    program: Seq<u8>,
    signer: Address,
    supplied: Address,
    title: String,
    slots: JournalSlots,
) -> (Result<(), LedgerError>, JournalSlots) {
    if !holds(slots, supplied@) {
        (Err(LedgerError::NotInitialized), slots)
    } else {
        let i = index_of(slots, supplied@);
        if slots[i].data.owner@ != signer@ {
            (Err(LedgerError::Unauthorized), slots)
        } else {
            match address_check(program, entry_seeds(title@, signer@), supplied) {
                Err(e) => (Err(e), slots),
                Ok(_) => (Ok(()), slots.remove(i)),
            }
        }
    }
}

/// What a read of the entry that `owner` titled `title` gives.
pub open spec fn read_entry_spec(
    program: Seq<u8>,
    owner: Seq<u8>,
    title: Seq<char>,
    slots: JournalSlots,
) -> Result<JournalEntryState, LedgerError> {
    match derive_spec(program, entry_seeds(title, owner)) {
        None => Err(LedgerError::BumpNotFound),
        Some((a, _)) => match slot_at(slots, a) {
            None => Err(LedgerError::NotInitialized),
            Some(acc) => Ok(acc.data),
        },
    }
}

impl JournalLedger {
    pub open spec fn wf(&self) -> bool {
        self.entries.wf()
    }

    /// A journal program with no entries.
    pub fn new(program_id: Address) -> (r: JournalLedger)
        ensures
            r.wf(),
            r.program_id == program_id,
            r.entries@ == Seq::<Account<JournalEntryState>>::empty(),
    {
        JournalLedger { program_id, entries: SlotTable::new() }
    }
}

/// Builds the seeds `[title, owner]` of a journal entry's address.
fn entry_seed_vec(title: &String, owner: &Address) -> (r: Vec<Vec<u8>>)
    ensures
        r.deep_view() == entry_seeds(title@, owner@),
{
    let mut seeds: Vec<Vec<u8>> = Vec::new();
    push_text_seeds(&mut seeds, title.as_str());
    let o = owner.to_seed();
    assert(o.deep_view() =~= o@);
    let ghost before = seeds.deep_view();
    seeds.push(o);
    assert(Seq::<Seq<u8>>::empty() + text_chunks(encode_utf8(title@)) =~= text_chunks(
        encode_utf8(title@),
    ));
    assert(seeds.deep_view() =~= entry_seeds(title@, owner@));
    seeds
}

/// A title within its bound, with an owner's 32 bytes, makes seeds that
/// the derivation accepts: only its bump search can fail.
pub proof fn lemma_entry_seeds_within_limits(title: Seq<char>, owner: Seq<u8>)
    requires
        title_fits(title),
        owner.len() == 32,
    ensures
        seeds_within_limits(entry_seeds(title, owner)),
        forall|program: Seq<u8>|
            #[trigger] derive_spec(program, entry_seeds(title, owner)) == pda_of(
                program,
                entry_seeds(title, owner),
            ),
{
    let c = text_chunks(encode_utf8(title));
    lemma_text_chunks_limits(encode_utf8(title));
    let s = entry_seeds(title, owner);
    assert forall|i: int| 0 <= i < s.len() implies #[trigger] s[i].len() <= 32 by {
        if i < c.len() {
            assert(s[i] == c[i]);
        }
    }
}

/// Whether a text's UTF-8 encoding is at most `max` bytes.
fn text_fits(s: &String, max: usize) -> (r: bool)
    ensures
        r == (encode_utf8(s@).len() <= max),
{
    s.as_str().as_bytes().len() <= max
}

/// Opens the entry `title` for the signer, who pays for the slot and is
/// recorded as its owner. The supplied address must be the one derived
/// from `[title, signer]` and must hold no record.
pub fn create_journal_entry(
    ledger: &mut JournalLedger,
    ctx: &CreateEntry,
    title: String,
    message: String,
) -> (r: Result<(), LedgerError>)
    requires
        old(ledger).wf(),
    ensures
        final(ledger).wf(),
        final(ledger).program_id == old(ledger).program_id,
        (r, final(ledger).entries@) == create_entry_spec(
            old(ledger).program_id@,
            ctx.signer,
            ctx.journal_entry,
            title,
            message,
            old(ledger).entries@,
        ),
{
    if !text_fits(&title, MAX_TITLE_LEN) || !text_fits(&message, MAX_MESSAGE_LEN) {
        return Err(LedgerError::SizeExceeded);
    }
    let seeds = entry_seed_vec(&title, &ctx.signer);
    let bump = match check_address(&ledger.program_id, &seeds, &ctx.journal_entry) {
        Err(e) => {
            return Err(e);
        },
        Ok(bump) => bump,
    };
    if ledger.entries.find(&ctx.journal_entry).is_some() {
        return Err(LedgerError::AlreadyInitialized);
    }
    let data = JournalEntryState { owner: ctx.signer, title, message };
    ledger.entries.insert(
        Account { address: ctx.journal_entry, bump, space: JOURNAL_ENTRY_SPACE, data },
    );
    Ok(())
}

/// Replaces the message of the signer's entry `title`. The slot must hold
/// a record owned by the signer, at the address derived from
/// `[title, signer]`; it is sized again to the entry's full space.
pub fn update_journal_entry(
    ledger: &mut JournalLedger,
    ctx: &UpdateEntry,
    title: String,
    message: String,
) -> (r: Result<(), LedgerError>)
    requires
        old(ledger).wf(),
    ensures
        final(ledger).wf(),
        final(ledger).program_id == old(ledger).program_id,
        (r, final(ledger).entries@) == update_entry_spec(
            old(ledger).program_id@,
            ctx.signer,
            ctx.journal_entry,
            title,
            message,
            old(ledger).entries@,
        ),
{
    if !text_fits(&title, MAX_TITLE_LEN) || !text_fits(&message, MAX_MESSAGE_LEN) {
        return Err(LedgerError::SizeExceeded);
    }
    let i = match ledger.entries.find(&ctx.journal_entry) {
        None => {
            return Err(LedgerError::NotInitialized);
        },
        Some(i) => i,
    };
    proof {
        crate::slots::lemma_slot_at_index(ledger.entries@, i as int);
    }
    let cur = ledger.entries.at(i);
    if !cur.data.owner.same_as(&ctx.signer) {
        return Err(LedgerError::Unauthorized);
    }
    let seeds = entry_seed_vec(&title, &ctx.signer);
    if let Err(e) = check_address(&ledger.program_id, &seeds, &ctx.journal_entry) {
        return Err(e);
    }
    let data = JournalEntryState { owner: cur.data.owner, title: cur.data.title.clone(), message };
    let updated = Account { address: cur.address, bump: cur.bump, space: JOURNAL_ENTRY_SPACE, data };
    ledger.entries.replace(i, updated);
    Ok(())
}

/// Closes the signer's entry `title`: the slot is deallocated and its
/// address is free to be created again.
pub fn delete_journal_entry(
    ledger: &mut JournalLedger,
    ctx: &DeleteEntry,
    title: String,
) -> (r: Result<(), LedgerError>)
    requires
        old(ledger).wf(),
    ensures
        final(ledger).wf(),
        final(ledger).program_id == old(ledger).program_id,
        (r, final(ledger).entries@) == delete_entry_spec(
            old(ledger).program_id@,
            ctx.signer,
            ctx.journal_entry,
            title,
            old(ledger).entries@,
        ),
{
    let i = match ledger.entries.find(&ctx.journal_entry) {
        None => {
            return Err(LedgerError::NotInitialized);
        },
        Some(i) => i,
    };
    proof {
        crate::slots::lemma_slot_at_index(ledger.entries@, i as int);
    }
    if !ledger.entries.at(i).data.owner.same_as(&ctx.signer) {
        return Err(LedgerError::Unauthorized);
    }
    let seeds = entry_seed_vec(&title, &ctx.signer);
    if let Err(e) = check_address(&ledger.program_id, &seeds, &ctx.journal_entry) {
        return Err(e);
    }
    ledger.entries.remove(i);
    Ok(())
}

/// Reads the entry that `owner` titled `title`, at the address derived
/// from `[title, owner]`.
pub fn read_journal_entry<'a>(
    ledger: &'a JournalLedger,
    owner: &Address,
    title: &String,
) -> (r: Result<&'a JournalEntryState, LedgerError>)
    requires
        ledger.wf(),
    ensures
        match (r, read_entry_spec(ledger.program_id@, owner@, title@, ledger.entries@)) {
            (Ok(d), Ok(e)) => *d == e,
            (Err(x), Err(y)) => x == y,
            _ => false,
        },
{
    let seeds = entry_seed_vec(title, owner);
    match derive_address(&ledger.program_id, &seeds) {
        None => Err(LedgerError::BumpNotFound),
        Some((a, _)) => match ledger.entries.get(&a) {
            None => Err(LedgerError::NotInitialized),
            Some(acc) => Ok(&acc.data),
        },
    }
}

/// Once an entry is created, reading it back by its owner and title gives
/// that owner, that title and that message.
pub proof fn lemma_create_then_read(
    program: Seq<u8>,
    owner: Address,
    supplied: Address,
    title: String,
    message: String,
    slots: JournalSlots,
)
    requires
        addresses_unique(slots),
        create_entry_spec(program, owner, supplied, title, message, slots).0 is Ok,
    ensures
        addresses_unique(create_entry_spec(program, owner, supplied, title, message, slots).1),
        read_entry_spec(
            program,
            owner@,
            title@,
            create_entry_spec(program, owner, supplied, title, message, slots).1,
        ) == Ok::<JournalEntryState, LedgerError>(
            JournalEntryState { owner, title, message },
        ),
{
    let (a, bump) = derive_spec(program, entry_seeds(title@, owner@)).unwrap();
    let acc = Account {
        address: supplied,
        bump,
        space: JOURNAL_ENTRY_SPACE,
        data: JournalEntryState { owner, title, message },
    };
    lemma_push_unique(slots, acc);
}

/// After an entry is created, its owner's update replaces the message and
/// keeps title and owner.
pub proof fn lemma_update_keeps_identity(
    program: Seq<u8>,
    owner: Address,
    supplied: Address,
    title: String,
    message: String,
    new_message: String,
    slots: JournalSlots,
)
    requires
        addresses_unique(slots),
        create_entry_spec(program, owner, supplied, title, message, slots).0 is Ok,
        message_fits(new_message@),
    ensures
        ({
            let created = create_entry_spec(program, owner, supplied, title, message, slots).1;
            let (r, updated) = update_entry_spec(
                program,
                owner,
                supplied,
                title,
                new_message,
                created,
            );
            &&& r is Ok
            &&& addresses_unique(updated)
            &&& read_entry_spec(program, owner@, title@, updated)
                == Ok::<JournalEntryState, LedgerError>(
                JournalEntryState { owner, title, message: new_message },
            )
        }),
{
    let (a, bump) = derive_spec(program, entry_seeds(title@, owner@)).unwrap();
    let acc = Account {
        address: supplied,
        bump,
        space: JOURNAL_ENTRY_SPACE,
        data: JournalEntryState { owner, title, message },
    };
    let created = slots.push(acc);
    lemma_push_unique(slots, acc);
    lemma_slot_at_index(created, slots.len() as int);
    let new_acc = Account {
        address: supplied,
        bump,
        space: JOURNAL_ENTRY_SPACE,
        data: JournalEntryState { owner, title, message: new_message },
    };
    lemma_update_unique(created, slots.len() as int, new_acc);
}

/// After an entry is created, an update of it by any other signer is
/// refused as unauthorized and changes nothing.
pub proof fn lemma_update_by_other_refused(
    program: Seq<u8>,
    owner: Address,
    other: Address,
    supplied: Address,
    title: String,
    message: String,
    new_message: String,
    slots: JournalSlots,
)
    requires
        addresses_unique(slots),
        create_entry_spec(program, owner, supplied, title, message, slots).0 is Ok,
        other@ != owner@,
        message_fits(new_message@),
    ensures
        ({
            let created = create_entry_spec(program, owner, supplied, title, message, slots).1;
            update_entry_spec(program, other, supplied, title, new_message, created) == (
                Err::<(), LedgerError>(LedgerError::Unauthorized),
                created,
            )
        }),
{
    let (a, bump) = derive_spec(program, entry_seeds(title@, owner@)).unwrap();
    let acc = Account {
        address: supplied,
        bump,
        space: JOURNAL_ENTRY_SPACE,
        data: JournalEntryState { owner, title, message },
    };
    lemma_push_unique(slots, acc);
    lemma_slot_at_index(slots.push(acc), slots.len() as int);
}

/// An entry that its owner created and then closed can be created again,
/// and the new record holds the new message only.
pub proof fn lemma_close_then_recreate(
    program: Seq<u8>,
    owner: Address,
    supplied: Address,
    title: String,
    message: String,
    new_message: String,
    slots: JournalSlots,
)
    requires
        addresses_unique(slots),
        create_entry_spec(program, owner, supplied, title, message, slots).0 is Ok,
        message_fits(new_message@),
    ensures
        ({
            let created = create_entry_spec(program, owner, supplied, title, message, slots).1;
            let (closed, after_close) = delete_entry_spec(program, owner, supplied, title, created);
            let (again, recreated) = create_entry_spec(
                program,
                owner,
                supplied,
                title,
                new_message,
                after_close,
            );
            &&& closed is Ok
            &&& !holds(after_close, supplied@)
            &&& again is Ok
            &&& read_entry_spec(program, owner@, title@, recreated)
                == Ok::<JournalEntryState, LedgerError>(
                JournalEntryState { owner, title, message: new_message },
            )
        }),
{
    let (a, bump) = derive_spec(program, entry_seeds(title@, owner@)).unwrap();
    let acc = Account {
        address: supplied,
        bump,
        space: JOURNAL_ENTRY_SPACE,
        data: JournalEntryState { owner, title, message },
    };
    let created = slots.push(acc);
    lemma_push_unique(slots, acc);
    lemma_slot_at_index(created, slots.len() as int);
    lemma_remove_unique(created, slots.len() as int);
    let after_close = created.remove(slots.len() as int);
    lemma_create_then_read(program, owner, supplied, title, new_message, after_close);
}

/// Creating an entry touches no other address: entries of other titles
/// or other owners, at other addresses, stay as they were.
pub proof fn lemma_create_keeps_other_entries(
    program: Seq<u8>,
    owner: Address,
    supplied: Address,
    title: String,
    message: String,
    slots: JournalSlots,
)
    requires
        addresses_unique(slots),
        create_entry_spec(program, owner, supplied, title, message, slots).0 is Ok,
    ensures
        forall|k: Seq<u8>|
            k != supplied@ ==> #[trigger] slot_at(
                create_entry_spec(program, owner, supplied, title, message, slots).1,
                k,
            ) == slot_at(slots, k),
{
    let bump = address_check(program, entry_seeds(title@, owner@), supplied)->Ok_0;
    let acc = Account {
        address: supplied,
        bump,
        space: JOURNAL_ENTRY_SPACE,
        data: JournalEntryState { owner, title, message },
    };
    assert forall|k: Seq<u8>| k != supplied@ implies #[trigger] slot_at(slots.push(acc), k)
        == slot_at(slots, k) by {
        lemma_push_keeps_others(slots, acc, k);
    }
}

} // verus!
