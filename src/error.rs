use vstd::prelude::*;

verus! {

/// Every failure that the store and the resolver report to their caller.
#[derive(Clone, Copy, Debug, PartialEq, Eq, Structural)]
pub enum ContractError {
    /// The four arrays of a relay batch do not all have the same length.
    MismatchedBatchLength,
    /// The symbol was never registered in the store.
    UnknownSymbol,
    /// The symbol is registered, but its record was never resolved.
    RefDataNotAvailable,
    /// The quote side of a cross rate resolved to a zero rate.
    DivisionByZero,
}

} // verus!
