use crate::error::ContractError;
use crate::resolver::{anchor_symbol, resolve_spec, RefDataResponse, ANCHOR_RATE};
use crate::state::{apply_batch, apply_prefix, batch_lengths_match, record_at, RefData};
use vstd::prelude::*;

verus! {

/// After the first `n` updates of a batch, a symbol whose last position
/// below `n` is `i` holds the record of position `i`, and a symbol that none
/// of those updates names keeps what it had.
proof fn lemma_prefix_read_back(
    refs: Map<Seq<char>, RefData>,
    symbols: Seq<Seq<char>>,
    rates: Seq<u64>,
    resolve_times: Seq<u64>,
    request_ids: Seq<u64>,
    n: nat,
)
    requires
        batch_lengths_match(symbols, rates, resolve_times, request_ids),
        n <= symbols.len(),
    ensures
        forall|i: int|
            0 <= i < n && (forall|j: int| i < j < n ==> symbols[j] != symbols[i]) ==> {
                &&& apply_prefix(refs, symbols, rates, resolve_times, request_ids, n).contains_key(#[trigger] symbols[i])
                &&& apply_prefix(refs, symbols, rates, resolve_times, request_ids, n)[symbols[i]] == record_at(rates, resolve_times, request_ids, i)
            },
        forall|k: Seq<char>|
            (forall|j: int| 0 <= j < n ==> symbols[j] != k) ==> {
                &&& #[trigger] apply_prefix(refs, symbols, rates, resolve_times, request_ids, n).contains_key(k) == refs.contains_key(k)
                &&& refs.contains_key(k) ==> apply_prefix(refs, symbols, rates, resolve_times, request_ids, n)[k] == refs[k]
            },
    decreases n,
{
    if n > 0 {
        let p = (n - 1) as nat;
        lemma_prefix_read_back(refs, symbols, rates, resolve_times, request_ids, p);
        let m = apply_prefix(refs, symbols, rates, resolve_times, request_ids, n);
        assert forall|i: int|
            0 <= i < n && (forall|j: int| i < j < n ==> symbols[j] != symbols[i]) implies {
                &&& m.contains_key(#[trigger] symbols[i])
                &&& m[symbols[i]] == record_at(rates, resolve_times, request_ids, i)
            } by {
            if i < p {
                assert(symbols[p as int] != symbols[i]);
            }
        }
        assert forall|k: Seq<char>| (forall|j: int| 0 <= j < n ==> symbols[j] != k) implies {
            &&& #[trigger] m.contains_key(k) == refs.contains_key(k)
            &&& refs.contains_key(k) ==> m[k] == refs[k]
        } by {
            assert(symbols[p as int] != k);
            let prev = apply_prefix(refs, symbols, rates, resolve_times, request_ids, p);
            assert(forall|j: int| 0 <= j < p ==> symbols[j] != k);
            assert(prev.contains_key(k) == refs.contains_key(k));
            assert(m.contains_key(k) == prev.contains_key(k));
        }
    }
}

/// Reading back after a batch gives exactly what the batch submitted: a
/// symbol holds the record of its last position in the batch, and a symbol
/// that the batch does not name keeps what it had.
pub proof fn lemma_batch_read_back(
    refs: Map<Seq<char>, RefData>,
    symbols: Seq<Seq<char>>,
    rates: Seq<u64>,
    resolve_times: Seq<u64>,
    request_ids: Seq<u64>,
)
    requires
        batch_lengths_match(symbols, rates, resolve_times, request_ids),
    ensures
        forall|i: int|
            0 <= i < symbols.len() && (forall|j: int| i < j < symbols.len() ==> symbols[j] != symbols[i]) ==> {
                &&& apply_batch(refs, symbols, rates, resolve_times, request_ids).contains_key(#[trigger] symbols[i])
                &&& apply_batch(refs, symbols, rates, resolve_times, request_ids)[symbols[i]] == record_at(rates, resolve_times, request_ids, i)
            },
        forall|k: Seq<char>|
            !symbols.contains(k) ==> {
                &&& #[trigger] apply_batch(refs, symbols, rates, resolve_times, request_ids).contains_key(k) == refs.contains_key(k)
                &&& refs.contains_key(k) ==> apply_batch(refs, symbols, rates, resolve_times, request_ids)[k] == refs[k]
            },
{
    lemma_prefix_read_back(refs, symbols, rates, resolve_times, request_ids, symbols.len());
    assert forall|k: Seq<char>| !symbols.contains(k) implies (forall|j: int|
        0 <= j < symbols.len() ==> symbols[j] != k) by {
        assert forall|j: int| 0 <= j < symbols.len() implies symbols[j] != k by {
            if symbols[j] == k {
                assert(symbols.contains(k));
            }
        }
    }
}

/// A second batch that writes a symbol replaces the record that the first
/// batch left for it, every field at once: the record is the one of the
/// symbol's last position in the second batch.
pub proof fn lemma_second_batch_replaces(
    refs: Map<Seq<char>, RefData>,
    first_symbols: Seq<Seq<char>>,
    first_rates: Seq<u64>,
    first_resolve_times: Seq<u64>,
    first_request_ids: Seq<u64>,
    symbols: Seq<Seq<char>>,
    rates: Seq<u64>,
    resolve_times: Seq<u64>,
    request_ids: Seq<u64>,
    i: int,
)
    requires
        batch_lengths_match(first_symbols, first_rates, first_resolve_times, first_request_ids),
        batch_lengths_match(symbols, rates, resolve_times, request_ids),
        0 <= i < symbols.len(),
        forall|j: int| i < j < symbols.len() ==> symbols[j] != symbols[i],
    ensures
        ({
            let first = apply_batch(refs, first_symbols, first_rates, first_resolve_times, first_request_ids);
            let second = apply_batch(first, symbols, rates, resolve_times, request_ids);
            &&& second.contains_key(symbols[i])
            &&& second[symbols[i]] == record_at(rates, resolve_times, request_ids, i)
        }),
{
    let first = apply_batch(refs, first_symbols, first_rates, first_resolve_times, first_request_ids);
    lemma_batch_read_back(first, symbols, rates, resolve_times, request_ids);
}

/// The anchor resolves to `ANCHOR_RATE` at the time of the query, whatever
/// the store holds.
pub proof fn lemma_anchor_resolves(refs: Map<Seq<char>, RefData>, now: u64)
    ensures
        resolve_spec(refs, anchor_symbol(), now) == Ok::<RefDataResponse, ContractError>(
            RefDataResponse { rate: ANCHOR_RATE, last_update: now },
        ),
{
}

/// A registered symbol that was never resolved gives `RefDataNotAvailable`,
/// and a symbol that was never registered gives `UnknownSymbol`.
pub proof fn lemma_unavailable_symbols(refs: Map<Seq<char>, RefData>, symbol: Seq<char>, now: u64)
    requires
        symbol != anchor_symbol(),
    ensures
        refs.contains_key(symbol) && refs[symbol].resolve_time == 0 ==> resolve_spec(refs, symbol, now)
            == Err::<RefDataResponse, ContractError>(ContractError::RefDataNotAvailable),
        !refs.contains_key(symbol) ==> resolve_spec(refs, symbol, now) == Err::<
            RefDataResponse,
            ContractError,
        >(ContractError::UnknownSymbol),
{
}

} // verus!
