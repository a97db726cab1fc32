use crate::error::ContractError;
use vstd::hash_map::StringHashMap;
use vstd::prelude::*;

verus! {

/// The record kept for one symbol.
#[derive(Clone, Copy, Debug, PartialEq, Eq, Structural)]
pub struct RefData {
    /// Price of the symbol in the oracle's fixed-point base.
    pub rate: u64,
    /// When this rate became valid; zero means the rate was never resolved.
    pub resolve_time: u64,
    /// The relay request that produced this record, kept for tracing only.
    pub request_id: u64,
}

/// The record that position `i` of a relay batch describes.
pub open spec fn record_at(rates: Seq<u64>, resolve_times: Seq<u64>, request_ids: Seq<u64>, i: int) -> RefData {
    RefData { rate: rates[i], resolve_time: resolve_times[i], request_id: request_ids[i] }
}

/// The four arrays of a relay batch are positionally aligned.
pub open spec fn batch_lengths_match(
    symbols: Seq<Seq<char>>,
    rates: Seq<u64>,
    resolve_times: Seq<u64>,
    request_ids: Seq<u64>,
) -> bool {
    &&& rates.len() == symbols.len()
    &&& resolve_times.len() == symbols.len()
    &&& request_ids.len() == symbols.len()
}

/// The mapping after the first `n` updates of a batch have been written, in
/// index order, over `refs`: a later index overwrites an earlier one.
pub open spec fn apply_prefix(
    refs: Map<Seq<char>, RefData>,
    symbols: Seq<Seq<char>>,
    rates: Seq<u64>,
    resolve_times: Seq<u64>,
    request_ids: Seq<u64>,
    n: nat,
) -> Map<Seq<char>, RefData>
    decreases n,
{
    if n == 0 {
        refs
    } else {
        apply_prefix(refs, symbols, rates, resolve_times, request_ids, (n - 1) as nat).insert(
            symbols[n - 1],
            record_at(rates, resolve_times, request_ids, n - 1),
        )
    }
}

/// The mapping after a whole batch has been written over `refs`.
pub open spec fn apply_batch(
    refs: Map<Seq<char>, RefData>,
    symbols: Seq<Seq<char>>,
    rates: Seq<u64>,
    resolve_times: Seq<u64>,
    request_ids: Seq<u64>,
) -> Map<Seq<char>, RefData> {
    apply_prefix(refs, symbols, rates, resolve_times, request_ids, symbols.len())
}

/// The text of each symbol.
pub open spec fn symbol_views(symbols: Seq<String>) -> Seq<Seq<char>> {
    symbols.map_values(|s: String| s@)
}

/// `entries` lists the mapping `refs`: each of its symbols once, with its record.
pub open spec fn lists_refs(refs: Map<Seq<char>, RefData>, entries: Seq<(String, RefData)>) -> bool {
    &&& forall|i: int, j: int| 0 <= i < j < entries.len() ==> entries[i].0@ != entries[j].0@
    &&& forall|i: int|
        0 <= i < entries.len() ==> refs.contains_key(#[trigger] entries[i].0@) && entries[i].1 == refs[entries[i].0@]
    &&& forall|k: Seq<char>| refs.contains_key(k) ==> exists|i: int| 0 <= i < entries.len() && #[trigger] entries[i].0@ == k
}

/// The reference store: a mapping from symbol to its record.
///
/// Beside the map it keeps each symbol once, in the order in which it was
/// first inserted, so that the whole store can be listed.
pub struct State {
    refs: StringHashMap<RefData>,
    symbols: Vec<String>,
}

impl View for State {
    type V = Map<Seq<char>, RefData>;

    closed spec fn view(&self) -> Map<Seq<char>, RefData> {
        self.refs@
    }
}

impl State {
    /// The symbol list holds each key of the map exactly once.
    pub closed spec fn wf(&self) -> bool {
        let keys = symbol_views(self.symbols@);
        &&& forall|i: int, j: int| 0 <= i < j < keys.len() ==> keys[i] != keys[j]
        &&& forall|k: Seq<char>|
            #![trigger self.refs@.contains_key(k)]
            #![trigger keys.contains(k)]
            self.refs@.contains_key(k) <==> keys.contains(k)
    }

    /// An empty store.
    pub fn new() -> (r: State)
        ensures
            r.wf(),
            r@ == Map::<Seq<char>, RefData>::empty(),
    {
        let r = State { refs: StringHashMap::new(), symbols: Vec::new() };
        assert(symbol_views(r.symbols@) =~= Seq::<Seq<char>>::empty());
        r
    }

    /// Inserts the record of `symbol`, replacing any record it had.
    pub fn upsert(&mut self, symbol: String, data: RefData)
        requires
            old(self).wf(),
        ensures
            final(self).wf(),
            final(self)@ == old(self)@.insert(symbol@, data),
    {
        let ghost old_keys = symbol_views(self.symbols@);
        if !self.refs.contains_key(symbol.as_str()) {
            let key = symbol.clone();
            self.symbols.push(key);
            proof {
                let keys = symbol_views(self.symbols@);
                assert(keys =~= old_keys.push(symbol@));
                assert forall|i: int| 0 <= i < old_keys.len() implies old_keys[i] != symbol@ by {
                    if old_keys[i] == symbol@ {
                        assert(old_keys.contains(symbol@));
                    }
                }
                assert(keys[keys.len() - 1] == symbol@);
                assert forall|k: Seq<char>| keys.contains(k) <==> (old_keys.contains(k) || k == symbol@) by {
                    if keys.contains(k) {
                        let i = choose|i: int| 0 <= i < keys.len() && keys[i] == k;
                        if i < old_keys.len() {
                            assert(old_keys[i] == k);
                        }
                    }
                    if old_keys.contains(k) {
                        let i = choose|i: int| 0 <= i < old_keys.len() && old_keys[i] == k;
                        assert(keys[i] == k);
                    }
                }
            }
        }
        let ghost sym = symbol@;
        self.refs.insert(symbol, data);
        assert(self.refs@ == old(self).refs@.insert(sym, data));
        assert forall|k: Seq<char>| self.refs@.contains_key(k) <==> symbol_views(self.symbols@).contains(k) by {
            if k != sym {
                assert(self.refs@.contains_key(k) == old(self).refs@.contains_key(k));
            } else {
                assert(self.refs@.contains_key(k));
            }
        }
    }

    /// The record of `symbol`, if it has one.
    pub fn get(&self, symbol: &str) -> (r: Option<RefData>)
        ensures
            r == (if self@.contains_key(symbol@) { Some(self@[symbol@]) } else { None::<RefData> }),
    {
        match self.refs.get(symbol) {
            Some(d) => Some(*d),
            None => None,
        }
    }

    /// Every symbol of the store with its record, each symbol once.
    pub fn refs(&self) -> (r: Vec<(String, RefData)>)
        requires
            self.wf(),
        ensures
            lists_refs(self@, r@),
    {
        let ghost keys = symbol_views(self.symbols@);
        let mut out: Vec<(String, RefData)> = Vec::new();
        let mut i: usize = 0;
        while i < self.symbols.len()
            invariant
                self.wf(),
                keys == symbol_views(self.symbols@),
                i <= self.symbols@.len(),
                out@.len() == i,
                forall|j: int| 0 <= j < i ==> #[trigger] out@[j].0@ == keys[j] && out@[j].1 == self@[keys[j]],
            decreases self.symbols@.len() - i,
        {
            let sym = &self.symbols[i];
            assert(keys[i as int] == sym@);
            assert(keys.contains(sym@));
            assert(self.refs@.contains_key(sym@));
            let ghost prev = out@;
            match self.refs.get(sym.as_str()) {
                Some(d) => {
                    out.push((sym.clone(), *d));
                },
                None => {},
            }
            assert forall|j: int| 0 <= j <= i implies #[trigger] out@[j].0@ == keys[j] && out@[j].1 == self@[keys[j]] by {
                if j < i {
                    assert(out@[j] == prev[j]);
                    assert(prev[j].0@ == keys[j]);
                }
            }
            i += 1;
        }
        assert forall|k: Seq<char>| self@.contains_key(k) implies exists|i: int| 0 <= i < out@.len() && #[trigger] out@[i].0@ == k by {
            let j = choose|j: int| 0 <= j < keys.len() && keys[j] == k;
            assert(out@[j].0@ == k);
        }
        assert forall|i: int| 0 <= i < out@.len() implies self@.contains_key(#[trigger] out@[i].0@) by {
            assert(keys.contains(keys[i]));
        }
        out
    }
}

/// Writes a relay batch over the store: for each index, the record of
/// `symbols[i]` becomes `(new_rates[i], new_resolve_times[i], new_request_ids[i])`.
///
/// The four arrays must have the same length; otherwise nothing is written.
pub fn update_refs(
    state: &mut State,
    symbols: &Vec<String>,
    new_rates: &Vec<u64>,
    new_resolve_times: &Vec<u64>,
    new_request_ids: &Vec<u64>,
) -> (r: Result<(), ContractError>)
    requires
        old(state).wf(),
    ensures
        final(state).wf(),
        batch_lengths_match(symbol_views(symbols@), new_rates@, new_resolve_times@, new_request_ids@) ==> {
            &&& r is Ok
            &&& final(state)@ == apply_batch(
                old(state)@,
                symbol_views(symbols@),
                new_rates@,
                new_resolve_times@,
                new_request_ids@,
            )
        },
        !batch_lengths_match(symbol_views(symbols@), new_rates@, new_resolve_times@, new_request_ids@) ==> {
            &&& r == Err::<(), ContractError>(ContractError::MismatchedBatchLength)
            &&& *final(state) == *old(state)
        },
{
    let len = symbols.len();
    if new_rates.len() != len || new_request_ids.len() != len || new_resolve_times.len() != len {
        return Err(ContractError::MismatchedBatchLength);
    }
    let ghost keys = symbol_views(symbols@);
    let ghost start = state@;
    let mut idx: usize = 0;
    while idx < len
        invariant
            state.wf(),
            len == symbols@.len(),
            keys == symbol_views(symbols@),
            batch_lengths_match(keys, new_rates@, new_resolve_times@, new_request_ids@),
            idx <= len,
            state@ == apply_prefix(start, keys, new_rates@, new_resolve_times@, new_request_ids@, idx as nat),
        decreases len - idx,
    {
        let data = RefData {
            rate: new_rates[idx],
            resolve_time: new_resolve_times[idx],
            request_id: new_request_ids[idx],
        };
        let sym = symbols[idx].clone();
        assert(keys[idx as int] == sym@);
        state.upsert(sym, data);
        idx += 1;
    }
    Ok(())
}

} // verus!
