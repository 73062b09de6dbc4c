use anchor_lang::prelude::Pubkey;
use crate::error::LedgerError;
use vstd::prelude::*;
use vstd::bytes::{spec_u64_to_le_bytes, u64_to_le_bytes};
use vstd::slice::{slice_subrange, slice_to_vec};
use vstd::string::StringSliceAdditionalSpecFns;

verus! {

/// Largest number of seeds that an address derivation hashes, the bump
/// byte that the search appends included; callers supply fewer.
pub const MAX_SEEDS: usize = 16;

/// Largest length of one seed, in bytes.
pub const MAX_SEED_LEN: usize = 32;

/// A 32-byte ledger address or identity.
#[derive(Debug, Clone, Copy)]
pub struct Address {
    pub bytes: [u8; 32],
}

impl View for Address {
    type V = Seq<u8>;

    open spec fn view(&self) -> Seq<u8> {
        self.bytes@
    }
}

impl Address {
    pub fn new(bytes: [u8; 32]) -> (r: Address)
        ensures
            r.bytes == bytes,
    {
        Address { bytes }
    }

    /// Byte-for-byte equality of two addresses.
    pub fn same_as(&self, other: &Address) -> (r: bool)
        ensures
            r == (self@ == other@),
    {
        let mut i: usize = 0;
        while i < 32
            invariant
                0 <= i <= 32,
                self@.len() == 32,
                other@.len() == 32,
                forall|j: int| 0 <= j < i ==> self@[j] == other@[j],
            decreases 32 - i,
        {
            if self.bytes[i] != other.bytes[i] {
                return false;
            }
            i = i + 1;
        }
        assert(self@ =~= other@);
        true
    }

    /// The address as an owned byte vector, for use as a seed.
    pub fn to_seed(&self) -> (r: Vec<u8>)
        ensures
            r@ == self@,
    {
        slice_to_vec(self.bytes.as_slice())
    }
}

/// The address and bump byte that the ledger's derivation gives for a
/// program and an ordered list of seeds, or `None` where it finds none.
pub uninterp spec fn pda_of(program: Seq<u8>, seeds: Seq<Seq<u8>>) -> Option<(Seq<u8>, u8)>;

/// Whether a seed list lies within the derivation's limits on the number
/// of seeds and the length of each.
pub open spec fn seeds_within_limits(seeds: Seq<Seq<u8>>) -> bool {
    &&& seeds.len() < MAX_SEEDS
    &&& forall|i: int| 0 <= i < seeds.len() ==> #[trigger] seeds[i].len() <= MAX_SEED_LEN
}

/// What a derivation reports, over plain byte sequences.
pub open spec fn derived_view(r: Option<(Address, u8)>) -> Option<(Seq<u8>, u8)> {
    match r {
        Some((a, b)) => Some((a@, b)),
        None => None,
    }
}

/// Relies on `Pubkey::try_find_program_address` of solana-program: it
/// searches bump bytes from 255 down and returns the first address that
/// is off the curve; it returns `None` when the seeds with the bump byte
/// appended number more than `MAX_SEEDS`, or a seed is longer than
/// `MAX_SEED_LEN` bytes.
#[verifier::external_body]
fn try_find_program_address(seeds: &Vec<Vec<u8>>, program: &Address) -> (r: Option<(Address, u8)>)
    ensures
        derived_view(r) == pda_of(program@, seeds.deep_view()),
        !seeds_within_limits(seeds.deep_view()) ==> r is None,
{
    let slices: Vec<&[u8]> = seeds.iter().map(|s| s.as_slice()).collect();
    let program_key = Pubkey::new_from_array(program.bytes);
    Pubkey::try_find_program_address(&slices, &program_key)
        .map(|(key, bump)| (Address { bytes: key.to_bytes() }, bump))
}

/// The outcome that `derive_address` owes for a program and seeds.
pub open spec fn derive_spec(program: Seq<u8>, seeds: Seq<Seq<u8>>) -> Option<(Seq<u8>, u8)> {
    if seeds_within_limits(seeds) {
        pda_of(program, seeds)
    } else {
        None
    }
}

/// Derives the address of the slot that `seeds` name under `program`,
/// with its bump byte; `None` when no bump byte gives a usable address.
pub fn derive_address(program: &Address, seeds: &Vec<Vec<u8>>) -> (r: Option<(Address, u8)>)
    ensures
        derived_view(r) == derive_spec(program@, seeds.deep_view()),
{
    try_find_program_address(seeds, program)
}

/// A check of a supplied address against the one derived from `seeds`.
pub open spec fn address_check(program: Seq<u8>, seeds: Seq<Seq<u8>>, supplied: Address) -> Result<
    u8,
    LedgerError,
> {
    match derive_spec(program, seeds) {
        None => Err(LedgerError::BumpNotFound),
        Some((a, bump)) => if a != supplied@ {
            Err(LedgerError::AddressMismatch)
        } else {
            Ok(bump)
        },
    }
}

/// Derives the address of `seeds` and compares it with the supplied one,
/// handing back the bump byte on a match.
pub fn check_address(program: &Address, seeds: &Vec<Vec<u8>>, supplied: &Address) -> (r: Result<
    u8,
    LedgerError,
>)
    ensures
        r == address_check(program@, seeds.deep_view(), *supplied),
{
    match derive_address(program, seeds) {
        None => Err(LedgerError::BumpNotFound),
        Some((a, bump)) => {
            if a.same_as(supplied) {
                Ok(bump)
            } else {
                Err(LedgerError::AddressMismatch)
            }
        },
    }
}

/// Deriving twice from the same program and seeds gives the same address
/// and bump byte.
pub proof fn lemma_derive_deterministic(
    program: Seq<u8>,
    seeds1: Seq<Seq<u8>>,
    seeds2: Seq<Seq<u8>>,
)
    requires
        seeds1 == seeds2,
    ensures
        derive_spec(program, seeds1) == derive_spec(program, seeds2),
{
}

/// The seed that a poll's id contributes: its eight little-endian bytes.
pub fn poll_seed(poll_id: u64) -> (r: Vec<u8>)
    ensures
        r@ == spec_u64_to_le_bytes(poll_id),
        r@.len() == 8,
{
    u64_to_le_bytes(poll_id)
}

/// The seeds that carry a text's bytes: consecutive pieces of
/// `MAX_SEED_LEN` bytes, the last one shorter. The derivation hashes its
/// seeds one after another, so the pieces name the same address as the
/// bytes taken whole; a text of at most `MAX_SEED_LEN` bytes is one seed.
pub open spec fn text_chunks(b: Seq<u8>) -> Seq<Seq<u8>>
    decreases b.len(),
{
    if b.len() == 0 {
        Seq::empty()
    } else if b.len() <= MAX_SEED_LEN {
        seq![b]
    } else {
        seq![b.take(MAX_SEED_LEN as int)] + text_chunks(b.skip(MAX_SEED_LEN as int))
    }
}

/// Every piece fits in one seed, and a text of `n` bytes takes at most
/// `ceil(n / MAX_SEED_LEN)` pieces.
pub proof fn lemma_text_chunks_limits(b: Seq<u8>)
    ensures
        text_chunks(b).len() * MAX_SEED_LEN <= b.len() + MAX_SEED_LEN - 1,
        forall|i: int|
            0 <= i < text_chunks(b).len() ==> #[trigger] text_chunks(b)[i].len() <= MAX_SEED_LEN,
    decreases b.len(),
{
    if b.len() > MAX_SEED_LEN {
        let rest = b.skip(MAX_SEED_LEN as int);
        lemma_text_chunks_limits(rest);
        let head: Seq<Seq<u8>> = seq![b.take(MAX_SEED_LEN as int)];
        assert forall|i: int|
            0 <= i < text_chunks(b).len() implies #[trigger] text_chunks(b)[i].len()
                <= MAX_SEED_LEN by {
            if i > 0 {
                assert(text_chunks(b)[i] == text_chunks(rest)[i - 1]);
            }
        }
    }
}

/// The bytes of a seed list, one seed after another, as the derivation
/// hashes them.
pub open spec fn joined(s: Seq<Seq<u8>>) -> Seq<u8>
    decreases s.len(),
{
    if s.len() == 0 {
        Seq::empty()
    } else {
        s[0] + joined(s.skip(1))
    }
}

/// The pieces, joined again, are the text's bytes.
pub proof fn lemma_text_chunks_join(b: Seq<u8>)
    ensures
        joined(text_chunks(b)) == b,
    decreases b.len(),
{
    if b.len() == 0 {
    } else if b.len() <= MAX_SEED_LEN {
        assert(seq![b].skip(1) =~= Seq::<Seq<u8>>::empty());
        assert(joined(Seq::<Seq<u8>>::empty()) == Seq::<u8>::empty());
        assert(b + Seq::<u8>::empty() =~= b);
    } else {
        let rest = b.skip(MAX_SEED_LEN as int);
        let head = b.take(MAX_SEED_LEN as int);
        lemma_text_chunks_join(rest);
        assert(text_chunks(b).skip(1) =~= text_chunks(rest));
        assert(text_chunks(b)[0] == head);
        assert(head + rest =~= b);
    }
}

/// Appends to `seeds` the seeds that carry the UTF-8 bytes of `s`.
pub fn push_text_seeds(seeds: &mut Vec<Vec<u8>>, s: &str)
    ensures
        final(seeds).deep_view() == old(seeds).deep_view() + text_chunks(s.spec_bytes()),
{
    let bytes = s.as_bytes();
    let n = bytes.len();
    let mut lo: usize = 0;
    assert(bytes@.skip(0) =~= bytes@);
    while lo < n
        invariant
            n == bytes@.len(),
            lo <= n,
            seeds.deep_view() + text_chunks(bytes@.skip(lo as int)) == old(seeds).deep_view()
                + text_chunks(bytes@),
        decreases n - lo,
    {
        let hi: usize = if n - lo > MAX_SEED_LEN {
            lo + MAX_SEED_LEN
        } else {
            n
        };
        let piece = slice_to_vec(slice_subrange(bytes, lo, hi));
        let ghost rest = bytes@.skip(lo as int);
        assert(rest.take(MAX_SEED_LEN as int) =~= bytes@.subrange(lo as int, hi as int)
            || rest.len() <= MAX_SEED_LEN);
        assert(rest.skip(MAX_SEED_LEN as int) =~= bytes@.skip(hi as int) || rest.len()
            <= MAX_SEED_LEN);
        assert(rest.len() <= MAX_SEED_LEN ==> rest =~= bytes@.subrange(lo as int, hi as int));
        assert(piece.deep_view() =~= piece@);
        let ghost before = seeds.deep_view();
        seeds.push(piece);
        assert(seeds.deep_view() =~= before.push(piece@));
        assert(bytes@.skip(n as int) =~= Seq::<u8>::empty());
        assert(before.push(piece@) + text_chunks(bytes@.skip(hi as int)) =~= before + text_chunks(
            rest,
        ));
        lo = hi;
    }
    assert(bytes@.skip(n as int) =~= Seq::<u8>::empty());
    assert(seeds.deep_view() + Seq::<Seq<u8>>::empty() =~= seeds.deep_view());
}

/// The seeds that carry the UTF-8 bytes of `s`.
pub fn text_seeds(s: &str) -> (r: Vec<Vec<u8>>)
    ensures
        r.deep_view() == text_chunks(s.spec_bytes()),
{
    let mut r: Vec<Vec<u8>> = Vec::new();
    push_text_seeds(&mut r, s);
    assert(Seq::<Seq<u8>>::empty() + text_chunks(s.spec_bytes()) =~= text_chunks(s.spec_bytes()));
    r
}

} // verus!
