use crate::address::{
    address_check, check_address, derive_address, derive_spec, lemma_text_chunks_limits, poll_seed,
    pda_of, push_text_seeds, seeds_within_limits, text_chunks, Address,
};
use crate::error::LedgerError;
use crate::slots::{
    addresses_unique, holds, index_of, lemma_push_keeps_others, lemma_push_unique, lemma_slot_at_index, lemma_update_unique,
    slot_at, Account, SlotTable,
};
use vstd::bytes::spec_u64_to_le_bytes;
use vstd::prelude::*;
use vstd::utf8::encode_utf8;

verus! {

/// Largest poll description, in UTF-8 bytes.
pub const MAX_DESCRIPTION_LEN: usize = 280;

/// Largest candidate name, in UTF-8 bytes.
pub const MAX_CANDIDATE_NAME_LEN: usize = 280;

/// A poll, stored at the address derived from `[poll_id]`.
pub struct Poll {
    pub poll_id: u64,
    pub description: String,
    pub poll_start: u64,
    pub poll_end: u64,
    pub candidate_amount: u64,
}

impl Poll {
    /// Bytes of the record at its largest.
    pub const INIT_SPACE: usize = 8 + (4 + 280) + 8 + 8 + 8;
}

/// A candidate of a poll, stored at the address derived from
/// `[poll_id, candidate_name]`.
pub struct Candidate {
    pub candidate_name: String,
    pub candidate_votes: u64,
}

impl Candidate {
    /// Bytes of the record at its largest.
    pub const INIT_SPACE: usize = (4 + 280) + 8;
}

/// Bytes allocated to a poll's slot, discriminator included.
pub const POLL_SPACE: usize = 8 + Poll::INIT_SPACE;

/// Bytes allocated to a candidate's slot, discriminator included.
pub const CANDIDATE_SPACE: usize = 8 + Candidate::INIT_SPACE;

/// The slots that `initialize_poll` is handed.
pub struct InitializePoll {
    pub signer: Address,
    pub poll: Address,
}

/// The slots that `initialize_candidate` is handed: the poll is updated
/// and the candidate created.
pub struct InitializeCandidate {
    pub signer: Address,
    pub poll: Address,
    pub candidate: Address,
}

/// The slots that `vote` is handed.
pub struct Vote {
    pub signer: Address,
    pub poll: Address,
    pub candidate: Address,
}

/// The voting program: its identity, its polls and their candidates.
pub struct VotingLedger {
    pub program_id: Address,
    pub polls: SlotTable<Poll>,
    pub candidates: SlotTable<Candidate>,
}

pub type PollSlots = Seq<Account<Poll>>;

pub type CandidateSlots = Seq<Account<Candidate>>;

/// The seeds of a poll's address.
pub open spec fn poll_seeds(poll_id: u64) -> Seq<Seq<u8>> {
    seq![spec_u64_to_le_bytes(poll_id)]
}

/// The seeds of a candidate's address: the poll id's bytes, then the
/// name's bytes in pieces that each fit in a seed.
pub open spec fn candidate_seeds(poll_id: u64, name: Seq<char>) -> Seq<Seq<u8>> {
    seq![spec_u64_to_le_bytes(poll_id)] + text_chunks(encode_utf8(name))
}

/// What opening a poll gives: the result and the polls after it.
pub open spec fn initialize_poll_spec(
    program: Seq<u8>,
    supplied: Address,
    poll_id: u64,
    description: String,
    poll_start: u64,
    poll_end: u64,
    polls: PollSlots,
) -> (Result<(), LedgerError>, PollSlots) {
    if encode_utf8(description@).len() > MAX_DESCRIPTION_LEN {
        (Err(LedgerError::SizeExceeded), polls)
    } else {
        match derive_spec(program, poll_seeds(poll_id)) {
            None => (Err(LedgerError::BumpNotFound), polls),
            Some((a, bump)) => if a != supplied@ {
                (Err(LedgerError::AddressMismatch), polls)
            } else if holds(polls, a) {
                (Err(LedgerError::AlreadyInitialized), polls)
            } else {
                (
                    Ok(()),
                    polls.push(
                        Account {
                            address: supplied,
                            bump,
                            space: POLL_SPACE,
                            data: Poll {
                                poll_id,
                                description,
                                poll_start,
                                poll_end,
                                candidate_amount: 0,
                            },
                        },
                    ),
                )
            },
        }
    }
}

/// What registering a candidate gives: the result, the polls and the
/// candidates after it. On success the poll's candidate count grows by
/// one and the candidate starts with no votes; on failure neither changes.
pub open spec fn initialize_candidate_spec(
    program: Seq<u8>,
    ctx: InitializeCandidate,
    candidate_name: String,
    poll_id: u64,
    polls: PollSlots,
    candidates: CandidateSlots,
) -> (Result<(), LedgerError>, PollSlots, CandidateSlots) {
    if encode_utf8(candidate_name@).len() > MAX_CANDIDATE_NAME_LEN {
        (Err(LedgerError::SizeExceeded), polls, candidates)
    } else {
        match address_check(program, poll_seeds(poll_id), ctx.poll) {
            Err(e) => (Err(e), polls, candidates),
            Ok(_) => if !holds(polls, ctx.poll@) {
                (Err(LedgerError::NotInitialized), polls, candidates)
            } else {
                match address_check(
                    program,
                    candidate_seeds(poll_id, candidate_name@),
                    ctx.candidate,
                ) {
                    Err(e) => (Err(e), polls, candidates),
                    Ok(bump) => {
                        let i = index_of(polls, ctx.poll@);
                        let p = polls[i];
                        if holds(candidates, ctx.candidate@) {
                            (Err(LedgerError::AlreadyInitialized), polls, candidates)
                        } else if p.data.candidate_amount == u64::MAX {
                            (Err(LedgerError::CounterOverflow), polls, candidates)
                        } else {
                            (
                                Ok(()),
                                polls.update(
                                    i,
                                    Account {
                                        data: Poll {
                                            candidate_amount: (p.data.candidate_amount + 1) as u64,
                                            ..p.data
                                        },
                                        ..p
                                    },
                                ),
                                candidates.push(
                                    Account {
                                        address: ctx.candidate,
                                        bump,
                                        space: CANDIDATE_SPACE,
                                        data: Candidate { candidate_name, candidate_votes: 0 },
                                    },
                                ),
                            )
                        }
                    },
                }
            },
        }
    }
}

/// What a vote gives: the result and the candidates after it. On success
/// the candidate's count grows by exactly one.
pub open spec fn vote_spec(
    program: Seq<u8>,
    ctx: Vote,
    candidate_name: String,
    poll_id: u64,
    polls: PollSlots,
    candidates: CandidateSlots,
) -> (Result<(), LedgerError>, CandidateSlots) {
    match address_check(program, poll_seeds(poll_id), ctx.poll) {
        Err(e) => (Err(e), candidates),
        Ok(_) => if !holds(polls, ctx.poll@) {
            (Err(LedgerError::NotInitialized), candidates)
        } else {
            match address_check(program, candidate_seeds(poll_id, candidate_name@), ctx.candidate) {
                Err(e) => (Err(e), candidates),
                Ok(_) => if !holds(candidates, ctx.candidate@) {
                    (Err(LedgerError::NotInitialized), candidates)
                } else {
                    let i = index_of(candidates, ctx.candidate@);
                    let c = candidates[i];
                    if c.data.candidate_votes == u64::MAX {
                        (Err(LedgerError::CounterOverflow), candidates)
                    } else {
                        (
                            Ok(()),
                            candidates.update(
                                i,
                                Account {
                                    data: Candidate {
                                        candidate_votes: (c.data.candidate_votes + 1) as u64,
                                        ..c.data
                                    },
                                    ..c
                                },
                            ),
                        )
                    }
                },
            }
        },
    }
}

impl VotingLedger {
    pub open spec fn wf(&self) -> bool {
        self.polls.wf() && self.candidates.wf()
    }

    /// A voting program with no polls.
    pub fn new(program_id: Address) -> (r: VotingLedger)
        ensures
            r.wf(),
            r.program_id == program_id,
            r.polls@ == Seq::<Account<Poll>>::empty(),
            r.candidates@ == Seq::<Account<Candidate>>::empty(),
    {
        VotingLedger { program_id, polls: SlotTable::new(), candidates: SlotTable::new() }
    }
}

fn poll_seed_vec(poll_id: u64) -> (r: Vec<Vec<u8>>)
    ensures
        r.deep_view() == poll_seeds(poll_id),
{
    let p = poll_seed(poll_id);
    assert(p.deep_view() =~= p@);
    let mut seeds: Vec<Vec<u8>> = Vec::new();
    seeds.push(p);
    assert(seeds.deep_view() =~= poll_seeds(poll_id));
    seeds
}

fn candidate_seed_vec(poll_id: u64, name: &String) -> (r: Vec<Vec<u8>>)
    ensures
        r.deep_view() == candidate_seeds(poll_id, name@),
{
    let mut seeds = poll_seed_vec(poll_id);
    push_text_seeds(&mut seeds, name.as_str());
    seeds
}

/// A candidate name within its bound, after the poll id's eight bytes,
/// makes seeds that the derivation accepts: only its bump search can fail.
pub proof fn lemma_candidate_seeds_within_limits(poll_id: u64, name: Seq<char>)
    requires
        encode_utf8(name).len() <= MAX_CANDIDATE_NAME_LEN,
    ensures
        seeds_within_limits(candidate_seeds(poll_id, name)),
        forall|program: Seq<u8>|
            #[trigger] derive_spec(program, candidate_seeds(poll_id, name)) == pda_of(
                program,
                candidate_seeds(poll_id, name),
            ),
{
    vstd::bytes::lemma_auto_spec_u64_to_from_le_bytes();
    let c = text_chunks(encode_utf8(name));
    lemma_text_chunks_limits(encode_utf8(name));
    let s = candidate_seeds(poll_id, name);
    assert forall|i: int| 0 <= i < s.len() implies #[trigger] s[i].len() <= 32 by {
        if i > 0 {
            assert(s[i] == c[i - 1]);
        }
    }
}

/// Opens poll `poll_id` at the address derived from `[poll_id]`, with no
/// candidates.
pub fn initialize_poll(
    ledger: &mut VotingLedger,
    ctx: &InitializePoll,
    poll_id: u64,
    description: String,
    poll_start: u64,
    poll_end: u64,
) -> (r: Result<(), LedgerError>)
    requires
        old(ledger).wf(),
    ensures
        final(ledger).wf(),
        final(ledger).program_id == old(ledger).program_id,
        final(ledger).candidates@ == old(ledger).candidates@,
        (r, final(ledger).polls@) == initialize_poll_spec(
            old(ledger).program_id@,
            ctx.poll,
            poll_id,
            description,
            poll_start,
            poll_end,
            old(ledger).polls@,
        ),
{
    if description.as_str().as_bytes().len() > MAX_DESCRIPTION_LEN {
        return Err(LedgerError::SizeExceeded);
    }
    let seeds = poll_seed_vec(poll_id);
    let bump = match check_address(&ledger.program_id, &seeds, &ctx.poll) {
        Err(e) => {
            return Err(e);
        },
        Ok(bump) => bump,
    };
    if ledger.polls.find(&ctx.poll).is_some() {
        return Err(LedgerError::AlreadyInitialized);
    }
    let data = Poll { poll_id, description, poll_start, poll_end, candidate_amount: 0 };
    ledger.polls.insert(Account { address: ctx.poll, bump, space: POLL_SPACE, data });
    Ok(())
}

/// Registers `candidate_name` in poll `poll_id`: in one step the poll's
/// candidate count grows by one and the candidate's slot is created with
/// no votes. Either both happen or neither does.
pub fn initialize_candidate(
    ledger: &mut VotingLedger,
    ctx: &InitializeCandidate,
    candidate_name: String,
    poll_id: u64,
) -> (r: Result<(), LedgerError>)
    requires
        old(ledger).wf(),
    ensures
        final(ledger).wf(),
        final(ledger).program_id == old(ledger).program_id,
        (r, final(ledger).polls@, final(ledger).candidates@) == initialize_candidate_spec(
            old(ledger).program_id@,
            *ctx,
            candidate_name,
            poll_id,
            old(ledger).polls@,
            old(ledger).candidates@,
        ),
{
    if candidate_name.as_str().as_bytes().len() > MAX_CANDIDATE_NAME_LEN {
        return Err(LedgerError::SizeExceeded);
    }
    let seeds = poll_seed_vec(poll_id);
    if let Err(e) = check_address(&ledger.program_id, &seeds, &ctx.poll) {
        return Err(e);
    }
    let i = match ledger.polls.find(&ctx.poll) {
        None => {
            return Err(LedgerError::NotInitialized);
        },
        Some(i) => i,
    };
    proof {
        lemma_slot_at_index(ledger.polls@, i as int);
    }
    let seeds = candidate_seed_vec(poll_id, &candidate_name);
    let bump = match check_address(&ledger.program_id, &seeds, &ctx.candidate) {
        Err(e) => {
            return Err(e);
        },
        Ok(bump) => bump,
    };
    if ledger.candidates.find(&ctx.candidate).is_some() {
        return Err(LedgerError::AlreadyInitialized);
    }
    let p = ledger.polls.at(i);
    if p.data.candidate_amount == u64::MAX {
        return Err(LedgerError::CounterOverflow);
    }
    let poll = Poll {
        poll_id: p.data.poll_id,
        description: p.data.description.clone(),
        poll_start: p.data.poll_start,
        poll_end: p.data.poll_end,
        candidate_amount: p.data.candidate_amount + 1,
    };
    let updated = Account { address: p.address, bump: p.bump, space: p.space, data: poll };
    ledger.polls.replace(i, updated);
    let data = Candidate { candidate_name, candidate_votes: 0 };
    ledger.candidates.insert(Account { address: ctx.candidate, bump, space: CANDIDATE_SPACE, data });
    Ok(())
}

/// Adds one vote to `candidate_name` of poll `poll_id`. Any signer may
/// vote, and may vote again.
pub fn vote(
    ledger: &mut VotingLedger,
    ctx: &Vote,
    candidate_name: String,
    poll_id: u64,
) -> (r: Result<(), LedgerError>)
    requires
        old(ledger).wf(),
    ensures
        final(ledger).wf(),
        final(ledger).program_id == old(ledger).program_id,
        final(ledger).polls@ == old(ledger).polls@,
        (r, final(ledger).candidates@) == vote_spec(
            old(ledger).program_id@,
            *ctx,
            candidate_name,
            poll_id,
            old(ledger).polls@,
            old(ledger).candidates@,
        ),
{
    let seeds = poll_seed_vec(poll_id);
    if let Err(e) = check_address(&ledger.program_id, &seeds, &ctx.poll) {
        return Err(e);
    }
    if ledger.polls.find(&ctx.poll).is_none() {
        return Err(LedgerError::NotInitialized);
    }
    let seeds = candidate_seed_vec(poll_id, &candidate_name);
    if let Err(e) = check_address(&ledger.program_id, &seeds, &ctx.candidate) {
        return Err(e);
    }
    let i = match ledger.candidates.find(&ctx.candidate) {
        None => {
            return Err(LedgerError::NotInitialized);
        },
        Some(i) => i,
    };
    proof {
        lemma_slot_at_index(ledger.candidates@, i as int);
    }
    let c = ledger.candidates.at(i);
    if c.data.candidate_votes == u64::MAX {
        return Err(LedgerError::CounterOverflow);
    }
    let data = Candidate {
        candidate_name: c.data.candidate_name.clone(),
        candidate_votes: c.data.candidate_votes + 1,
    };
    let updated = Account { address: c.address, bump: c.bump, space: c.space, data };
    ledger.candidates.replace(i, updated);
    Ok(())
}

/// Reads the poll stored at the address derived from `[poll_id]`.
pub fn read_poll(ledger: &VotingLedger, poll_id: u64) -> (r: Result<&Poll, LedgerError>)
    requires
        ledger.wf(),
    ensures
        match derive_spec(ledger.program_id@, poll_seeds(poll_id)) {
            None => r == Err::<&Poll, LedgerError>(LedgerError::BumpNotFound),
            Some((a, _)) => match slot_at(ledger.polls@, a) {
                None => r == Err::<&Poll, LedgerError>(LedgerError::NotInitialized),
                Some(acc) => r matches Ok(p) && *p == acc.data,
            },
        },
{
    let seeds = poll_seed_vec(poll_id);
    match derive_address(&ledger.program_id, &seeds) {
        None => Err(LedgerError::BumpNotFound),
        Some((a, _)) => match ledger.polls.get(&a) {
            None => Err(LedgerError::NotInitialized),
            Some(acc) => Ok(&acc.data),
        },
    }
}

/// Reads the candidate stored at the address derived from
/// `[poll_id, candidate_name]`.
pub fn read_candidate<'a>(ledger: &'a VotingLedger, candidate_name: &String, poll_id: u64) -> (r: Result<
    &'a Candidate,
    LedgerError,
>)
    requires
        ledger.wf(),
    ensures
        match derive_spec(ledger.program_id@, candidate_seeds(poll_id, candidate_name@)) {
            None => r == Err::<&Candidate, LedgerError>(LedgerError::BumpNotFound),
            Some((a, _)) => match slot_at(ledger.candidates@, a) {
                None => r == Err::<&Candidate, LedgerError>(LedgerError::NotInitialized),
                Some(acc) => r matches Ok(c) && *c == acc.data,
            },
        },
{
    let seeds = candidate_seed_vec(poll_id, candidate_name);
    match derive_address(&ledger.program_id, &seeds) {
        None => Err(LedgerError::BumpNotFound),
        Some((a, _)) => match ledger.candidates.get(&a) {
            None => Err(LedgerError::NotInitialized),
            Some(acc) => Ok(&acc.data),
        },
    }
}

/// Registering a candidate raises its poll's candidate count by one and
/// creates the candidate with no votes; registering the same name again
/// is refused as already initialized and leaves the count where it is.
pub proof fn lemma_candidate_registration(
    program: Seq<u8>,
    ctx: InitializeCandidate,
    candidate_name: String,
    poll_id: u64,
    polls: PollSlots,
    candidates: CandidateSlots,
)
    requires
        addresses_unique(polls),
        addresses_unique(candidates),
        initialize_candidate_spec(program, ctx, candidate_name, poll_id, polls, candidates).0 is Ok,
    ensures
        ({
            let (_, polls1, cands1) = initialize_candidate_spec(
                program,
                ctx,
                candidate_name,
                poll_id,
                polls,
                candidates,
            );
            let before = slot_at(polls, ctx.poll@).unwrap().data;
            let after = slot_at(polls1, ctx.poll@).unwrap().data;
            let cand = slot_at(cands1, ctx.candidate@).unwrap().data;
            &&& holds(polls1, ctx.poll@)
            &&& after.candidate_amount == before.candidate_amount + 1
            &&& after.poll_id == before.poll_id
            &&& after.description == before.description
            &&& holds(cands1, ctx.candidate@)
            &&& cand.candidate_name == candidate_name
            &&& cand.candidate_votes == 0
            &&& initialize_candidate_spec(program, ctx, candidate_name, poll_id, polls1, cands1) == (
                Err::<(), LedgerError>(LedgerError::AlreadyInitialized),
                polls1,
                cands1,
            )
        }),
{
    let i = index_of(polls, ctx.poll@);
    let p = polls[i];
    assert(0 <= i < polls.len() && p.address@ == ctx.poll@);
    lemma_slot_at_index(polls, i);
    let np = Account {
        data: Poll { candidate_amount: (p.data.candidate_amount + 1) as u64, ..p.data },
        ..p
    };
    lemma_update_unique(polls, i, np);
    let bump = address_check(program, candidate_seeds(poll_id, candidate_name@), ctx.candidate)->Ok_0;
    let c = Account {
        address: ctx.candidate,
        bump,
        space: CANDIDATE_SPACE,
        data: Candidate { candidate_name, candidate_votes: 0 },
    };
    lemma_push_unique(candidates, c);
    let polls1 = polls.update(i, np);
    lemma_slot_at_index(polls1, i);
}

/// A successful vote, whoever signs it, adds exactly one to the
/// candidate's votes and keeps the candidate's name.
pub proof fn lemma_vote_adds_one(
    program: Seq<u8>,
    ctx: Vote,
    candidate_name: String,
    poll_id: u64,
    polls: PollSlots,
    candidates: CandidateSlots,
)
    requires
        addresses_unique(candidates),
        vote_spec(program, ctx, candidate_name, poll_id, polls, candidates).0 is Ok,
    ensures
        ({
            let (_, cands1) = vote_spec(program, ctx, candidate_name, poll_id, polls, candidates);
            let before = slot_at(candidates, ctx.candidate@).unwrap().data;
            let after = slot_at(cands1, ctx.candidate@).unwrap().data;
            &&& addresses_unique(cands1)
            &&& holds(cands1, ctx.candidate@)
            &&& after.candidate_votes == before.candidate_votes + 1
            &&& after.candidate_name == before.candidate_name
        }),
{
    let i = index_of(candidates, ctx.candidate@);
    let c = candidates[i];
    assert(0 <= i < candidates.len() && c.address@ == ctx.candidate@);
    lemma_slot_at_index(candidates, i);
    let nc = Account {
        data: Candidate { candidate_votes: (c.data.candidate_votes + 1) as u64, ..c.data },
        ..c
    };
    lemma_update_unique(candidates, i, nc);
}

/// Votes accumulate: where one vote for a candidate succeeds and its
/// count has room for three more, three votes for it from any three
/// signers all succeed and leave its count three higher.
pub proof fn lemma_three_votes(
    program: Seq<u8>,
    ctx1: Vote,
    ctx2: Vote,
    ctx3: Vote,
    candidate_name: String,
    poll_id: u64,
    polls: PollSlots,
    candidates: CandidateSlots,
)
    requires
        addresses_unique(candidates),
        ctx2.poll == ctx1.poll && ctx2.candidate == ctx1.candidate,
        ctx3.poll == ctx1.poll && ctx3.candidate == ctx1.candidate,
        vote_spec(program, ctx1, candidate_name, poll_id, polls, candidates).0 is Ok,
        slot_at(candidates, ctx1.candidate@).unwrap().data.candidate_votes + 3 <= u64::MAX,
    ensures
        ({
            let (r1, c1) = vote_spec(program, ctx1, candidate_name, poll_id, polls, candidates);
            let (r2, c2) = vote_spec(program, ctx2, candidate_name, poll_id, polls, c1);
            let (r3, c3) = vote_spec(program, ctx3, candidate_name, poll_id, polls, c2);
            &&& r1 is Ok && r2 is Ok && r3 is Ok
            &&& slot_at(c3, ctx1.candidate@).unwrap().data.candidate_votes == slot_at(
                candidates,
                ctx1.candidate@,
            ).unwrap().data.candidate_votes + 3
        }),
{
    lemma_vote_adds_one(program, ctx1, candidate_name, poll_id, polls, candidates);
    let c1 = vote_spec(program, ctx1, candidate_name, poll_id, polls, candidates).1;
    assert(vote_spec(program, ctx2, candidate_name, poll_id, polls, c1).0 is Ok);
    lemma_vote_adds_one(program, ctx2, candidate_name, poll_id, polls, c1);
    let c2 = vote_spec(program, ctx2, candidate_name, poll_id, polls, c1).1;
    assert(vote_spec(program, ctx3, candidate_name, poll_id, polls, c2).0 is Ok);
    lemma_vote_adds_one(program, ctx3, candidate_name, poll_id, polls, c2);
}

/// Registering a candidate touches no other candidate: those of other
/// names or other polls, at other addresses, stay as they were.
pub proof fn lemma_registration_keeps_other_candidates(
    program: Seq<u8>,
    ctx: InitializeCandidate,
    candidate_name: String,
    poll_id: u64,
    polls: PollSlots,
    candidates: CandidateSlots,
)
    requires
        addresses_unique(candidates),
        initialize_candidate_spec(program, ctx, candidate_name, poll_id, polls, candidates).0 is Ok,
    ensures
        forall|k: Seq<u8>|
            k != ctx.candidate@ ==> #[trigger] slot_at(
                initialize_candidate_spec(program, ctx, candidate_name, poll_id, polls, candidates).2,
                k,
            ) == slot_at(candidates, k),
{
    let bump = address_check(program, candidate_seeds(poll_id, candidate_name@), ctx.candidate)->Ok_0;
    let c = Account {
        address: ctx.candidate,
        bump,
        space: CANDIDATE_SPACE,
        data: Candidate { candidate_name, candidate_votes: 0 },
    };
    assert forall|k: Seq<u8>| k != ctx.candidate@ implies #[trigger] slot_at(candidates.push(c), k)
        == slot_at(candidates, k) by {
        lemma_push_keeps_others(candidates, c, k);
    }
}

} // verus!
