use crate::resolver::ReferenceData;
use crate::state::RefData;
use vstd::prelude::*;

verus! {

/// A request that changes the store.
#[derive(Clone, Debug)]
pub enum ExecuteMsg {
    /// A relay batch: position `i` of the four arrays describes one update.
    Relay { symbols: Vec<String>, rates: Vec<u64>, resolve_times: Vec<u64>, request_ids: Vec<u64> },
}

/// A request that reads the store.
#[derive(Clone, Debug)]
pub enum QueryMsg {
    /// Every symbol with its record.
    GetRefs,
    /// The price of `base` in `quote`.
    GetReferenceData { base: String, quote: String },
}

/// The answer to a `QueryMsg`, one variant for each of its variants.
#[derive(Clone, Debug)]
pub enum QueryResponse {
    Refs(Vec<(String, RefData)>),
    ReferenceData(ReferenceData),
}

} // verus!
