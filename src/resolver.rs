use crate::error::ContractError;
use crate::state::{RefData, State};
use vstd::arithmetic::div_mod::{lemma_div_pos_is_pos, lemma_fundamental_div_mod, lemma_mod_bound};
use vstd::prelude::*;

verus! {

/// The anchor's rate: one unit in the oracle's fixed-point base.
pub const ANCHOR_RATE: u64 = 1_000_000_000;

/// The scale by which the base rate is multiplied before the division of a cross rate.
pub const RATE_SCALE: u128 = 1_000_000_000_000_000_000;

/// A symbol resolved to its rate and the time of that rate.
#[derive(Clone, Copy, Debug, PartialEq, Eq, Structural)]
pub struct RefDataResponse {
    pub rate: u64,
    pub last_update: u64,
}

/// The price of a base symbol in a quote symbol, scaled by `RATE_SCALE`,
/// with the time of each side's rate.
#[derive(Clone, Copy, Debug, PartialEq, Eq, Structural)]
pub struct ReferenceData {
    pub rate: u128,
    pub last_updated_base: u128,
    pub last_updated_quote: u128,
}

/// The anchor symbol, whose rate is fixed rather than stored.
pub open spec fn anchor_symbol() -> Seq<char> {
    "USD"@
}

/// What resolving `symbol` at time `now` against the mapping `refs` gives.
pub open spec fn resolve_spec(refs: Map<Seq<char>, RefData>, symbol: Seq<char>, now: u64) -> Result<
    RefDataResponse,
    ContractError,
> {
    if symbol == anchor_symbol() {
        Ok(RefDataResponse { rate: ANCHOR_RATE, last_update: now })
    } else if !refs.contains_key(symbol) {
        Err(ContractError::UnknownSymbol)
    } else if refs[symbol].resolve_time == 0 {
        Err(ContractError::RefDataNotAvailable)
    } else {
        Ok(RefDataResponse { rate: refs[symbol].rate, last_update: refs[symbol].resolve_time })
    }
}

/// `base_rate * RATE_SCALE / quote_rate`, truncated.
pub open spec fn scaled_ratio(base_rate: u64, quote_rate: u64) -> int {
    (base_rate * RATE_SCALE) as int / quote_rate as int
}

/// `r` is the cross rate of the two resolved pairs: an error exactly when the
/// quote rate is zero.
pub open spec fn cross_rate_result(base: RefDataResponse, quote: RefDataResponse, r: Result<ReferenceData, ContractError>) -> bool {
    match r {
        Ok(d) => {
            &&& quote.rate != 0
            &&& d.rate == scaled_ratio(base.rate, quote.rate)
            &&& d.last_updated_base == base.last_update
            &&& d.last_updated_quote == quote.last_update
        },
        Err(e) => quote.rate == 0 && e == ContractError::DivisionByZero,
    }
}

/// `r` is what a reference-data query of `base` in `quote` gives: the base's
/// resolution error, else the quote's, else the cross rate of the two.
pub open spec fn reference_data_result(
    refs: Map<Seq<char>, RefData>,
    base: Seq<char>,
    quote: Seq<char>,
    now: u64,
    r: Result<ReferenceData, ContractError>,
) -> bool {
    match resolve_spec(refs, base, now) {
        Err(e) => r == Err::<ReferenceData, ContractError>(e),
        Ok(b) => match resolve_spec(refs, quote, now) {
            Err(e) => r == Err::<ReferenceData, ContractError>(e),
            Ok(q) => cross_rate_result(b, q, r),
        },
    }
}

/// Resolves `symbol` to its rate and last update time.
///
/// The anchor resolves to `ANCHOR_RATE` at `now`; any other symbol to its
/// stored record, if it has one that was resolved.
pub fn get_ref_data(state: &State, symbol: &String, now: u64) -> (r: Result<RefDataResponse, ContractError>)
    ensures
        r == resolve_spec(state@, symbol@, now),
{
    let anchor = "USD".to_string();
    if *symbol == anchor {
        return Ok(RefDataResponse { rate: ANCHOR_RATE, last_update: now });
    }
    match state.get(symbol.as_str()) {
        None => Err(ContractError::UnknownSymbol),
        Some(d) => {
            if d.resolve_time == 0 {
                Err(ContractError::RefDataNotAvailable)
            } else {
                Ok(RefDataResponse { rate: d.rate, last_update: d.resolve_time })
            }
        },
    }
}

/// Combines two resolved pairs into the cross rate of `base` in `quote`.
pub fn cross_rate(base: &RefDataResponse, quote: &RefDataResponse) -> (r: Result<ReferenceData, ContractError>)
    ensures
        cross_rate_result(*base, *quote, r),
{
    if quote.rate == 0 {
        return Err(ContractError::DivisionByZero);
    }
    assert(base.rate * RATE_SCALE <= 0xffff_ffff_ffff_ffffu64 * RATE_SCALE) by (nonlinear_arith)
        requires
            base.rate <= 0xffff_ffff_ffff_ffffu64,
    ;
    let numerator: u128 = base.rate as u128 * RATE_SCALE;
    Ok(ReferenceData {
        rate: numerator / quote.rate as u128,
        last_updated_base: base.last_update as u128,
        last_updated_quote: quote.last_update as u128,
    })
}

/// The price of `base` in `quote` at time `now`, from the store's records.
pub fn get_reference_data(state: &State, base: &String, quote: &String, now: u64) -> (r: Result<
    ReferenceData,
    ContractError,
>)
    ensures
        reference_data_result(state@, base@, quote@, now, r),
{
    let base_data = match get_ref_data(state, base, now) {
        Ok(d) => d,
        Err(e) => return Err(e),
    };
    let quote_data = match get_ref_data(state, quote, now) {
        Ok(d) => d,
        Err(e) => return Err(e),
    };
    cross_rate(&base_data, &quote_data)
}

/// With `x = a * e / b` and `y = b * e / a`, truncated, `x * y` lies within
/// truncation of `e * e`.
proof fn lemma_truncated_ratios(a: int, b: int, e: int)
    requires
        a > 0,
        b > 0,
        e > 0,
    ensures
        (a * e / b) * (b * e / a) <= e * e,
        ((a * e / b) + 1) * ((b * e / a) + 1) > e * e,
{
    let x = a * e / b;
    let y = b * e / a;
    assert(a * e > 0) by (nonlinear_arith)
        requires
            a > 0,
            e > 0,
    ;
    assert(b * e > 0) by (nonlinear_arith)
        requires
            b > 0,
            e > 0,
    ;
    lemma_fundamental_div_mod(a * e, b);
    lemma_fundamental_div_mod(b * e, a);
    lemma_mod_bound(a * e, b);
    lemma_mod_bound(b * e, a);
    lemma_div_pos_is_pos(a * e, b);
    lemma_div_pos_is_pos(b * e, a);
    assert(b * x <= a * e < b * x + b);
    assert(a * y <= b * e < a * y + a);
    assert(b * (x + 1) == b * x + b) by (nonlinear_arith);
    assert(a * (y + 1) == a * y + a) by (nonlinear_arith);
    assert(x * y * (a * b) <= (e * e) * (a * b)) by (nonlinear_arith)
        requires
            b * x <= a * e,
            a * y <= b * e,
            x >= 0,
            y >= 0,
            a > 0,
            b > 0,
    ;
    assert(x * y <= e * e) by (nonlinear_arith)
        requires
            x * y * (a * b) <= (e * e) * (a * b),
            a > 0,
            b > 0,
    ;
    assert((x + 1) * (y + 1) * (a * b) > (e * e) * (a * b)) by (nonlinear_arith)
        requires
            b * (x + 1) > a * e,
            a * (y + 1) > b * e,
            a * e > 0,
            b * e > 0,
    ;
    assert((x + 1) * (y + 1) > e * e) by (nonlinear_arith)
        requires
            (x + 1) * (y + 1) * (a * b) > (e * e) * (a * b),
            a > 0,
            b > 0,
    ;
}

/// Cross rates are scale-consistent: when the queries of `a` in `b` and of
/// `b` in `a` both succeed, the product of the two rates is at most 10^36,
/// and exceeds it once each rate is raised by one (the loss of the two
/// truncating divisions).
pub proof fn lemma_cross_rate_reciprocal(
    refs: Map<Seq<char>, RefData>,
    a: Seq<char>,
    b: Seq<char>,
    now: u64,
    ab: ReferenceData,
    ba: ReferenceData,
)
    requires
        reference_data_result(refs, a, b, now, Ok(ab)),
        reference_data_result(refs, b, a, now, Ok(ba)),
    ensures
        ab.rate * ba.rate <= 1_000_000_000_000_000_000_000_000_000_000_000_000int,
        (ab.rate + 1) * (ba.rate + 1) > 1_000_000_000_000_000_000_000_000_000_000_000_000int,
{
    let ra = resolve_spec(refs, a, now)->Ok_0.rate;
    let rb = resolve_spec(refs, b, now)->Ok_0.rate;
    lemma_truncated_ratios(ra as int, rb as int, RATE_SCALE as int);
    assert((ra * RATE_SCALE) as int == ra as int * RATE_SCALE as int);
    assert((rb * RATE_SCALE) as int == rb as int * RATE_SCALE as int);
}

} // verus!
