use vstd::prelude::*;

verus! {

/// Why an operation on the ledger was refused; a refused operation leaves
/// the ledger as it was.
#[derive(Debug, Clone, Copy, PartialEq, Eq, Structural)]
pub enum LedgerError {
    /// The supplied address is not the one derived from the operation's seeds.
    AddressMismatch,
    /// The signer is not the identity that the slot records as its owner.
    Unauthorized,
    /// A create targets a slot that already holds a record.
    AlreadyInitialized,
    /// An update, close or vote targets a slot that holds no record.
    NotInitialized,
    /// A bounded field is longer than its declared maximum.
    SizeExceeded,
    /// The payer cannot cover the cost of an allocation. The host reports
    /// it; the operations here, which keep no balances, never return it.
    AllocationFailure,
    /// No bump byte yields a usable address for the seeds.
    BumpNotFound,
    /// A counter would pass the largest `u64`.
    CounterOverflow,
}

} // verus!
