use crate::error::ContractError;
use crate::msg::{ExecuteMsg, QueryMsg, QueryResponse};
use crate::resolver::{get_reference_data, reference_data_result};
use crate::state::{apply_batch, batch_lengths_match, lists_refs, symbol_views, update_refs, RefData, State};
use vstd::prelude::*;

verus! {

/// The store as the system starts: empty.
pub fn instantiate() -> (r: State)
    ensures
        r.wf(),
        r@ == Map::<Seq<char>, RefData>::empty(),
{
    State::new()
}

/// Applies a request that changes the store.
pub fn execute(state: &mut State, msg: ExecuteMsg) -> (r: Result<(), ContractError>)
    requires
        old(state).wf(),
    ensures
        final(state).wf(),
        match msg {
            ExecuteMsg::Relay { symbols, rates, resolve_times, request_ids } => {
                if batch_lengths_match(symbol_views(symbols@), rates@, resolve_times@, request_ids@) {
                    &&& r is Ok
                    &&& final(state)@ == apply_batch(old(state)@, symbol_views(symbols@), rates@, resolve_times@, request_ids@)
                } else {
                    &&& r == Err::<(), ContractError>(ContractError::MismatchedBatchLength)
                    &&& *final(state) == *old(state)
                }
            },
        },
{
    match msg {
        ExecuteMsg::Relay { symbols, rates, resolve_times, request_ids } => update_refs(
            state,
            &symbols,
            &rates,
            &resolve_times,
            &request_ids,
        ),
    }
}

/// Answers a request that reads the store; `now` is the time of the query.
pub fn query(state: &State, now: u64, msg: &QueryMsg) -> (r: Result<QueryResponse, ContractError>)
    requires
        state.wf(),
    ensures
        match *msg {
            QueryMsg::GetRefs => match r {
                Ok(QueryResponse::Refs(entries)) => lists_refs(state@, entries@),
                _ => false,
            },
            QueryMsg::GetReferenceData { base, quote } => match r {
                Ok(QueryResponse::ReferenceData(d)) => reference_data_result(state@, base@, quote@, now, Ok(d)),
                Err(e) => reference_data_result(state@, base@, quote@, now, Err(e)),
                _ => false,
            },
        },
{
    match msg {
        QueryMsg::GetRefs => Ok(QueryResponse::Refs(state.refs())),
        QueryMsg::GetReferenceData { base, quote } => match get_reference_data(state, base, quote, now) {
            Ok(d) => Ok(QueryResponse::ReferenceData(d)),
            Err(e) => Err(e),
        },
    }
}

} // verus!
