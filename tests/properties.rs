use band_oracle::contract::{execute, instantiate, query};
use band_oracle::error::ContractError;
use band_oracle::msg::{ExecuteMsg, QueryMsg, QueryResponse};
use band_oracle::resolver::{cross_rate, get_ref_data, get_reference_data, RefDataResponse, ReferenceData};
use band_oracle::state::{update_refs, RefData, State};

fn strings(symbols: &[&str]) -> Vec<String> {
    symbols.iter().map(|s| s.to_string()).collect()
}

fn store_with(symbols: &[&str], rates: Vec<u64>, resolve_times: Vec<u64>, request_ids: Vec<u64>) -> State {
    let mut state = State::new();
    update_refs(&mut state, &strings(symbols), &rates, &resolve_times, &request_ids).unwrap();
    state
}

#[test]
fn batch_reads_back_every_record() {
    let state = store_with(&["ETH", "BAND", "ATOM"], vec![5, 6, 7], vec![50, 60, 70], vec![500, 600, 700]);
    assert_eq!(Some(RefData { rate: 5, resolve_time: 50, request_id: 500 }), state.get("ETH"));
    assert_eq!(Some(RefData { rate: 6, resolve_time: 60, request_id: 600 }), state.get("BAND"));
    assert_eq!(Some(RefData { rate: 7, resolve_time: 70, request_id: 700 }), state.get("ATOM"));
    assert_eq!(None, state.get("BTC"));
    assert_eq!(3, state.refs().len());
}

#[test]
fn symbols_are_case_sensitive() {
    let state = store_with(&["eth"], vec![1], vec![2], vec![3]);
    assert_eq!(None, state.get("ETH"));
    assert_eq!(Some(RefData { rate: 1, resolve_time: 2, request_id: 3 }), state.get("eth"));
}

#[test]
fn duplicate_symbols_last_occurrence_wins() {
    let state = store_with(&["ETH", "BAND", "ETH"], vec![1, 2, 3], vec![10, 20, 30], vec![100, 200, 300]);
    assert_eq!(Some(RefData { rate: 3, resolve_time: 30, request_id: 300 }), state.get("ETH"));
    assert_eq!(2, state.refs().len());
}

#[test]
fn empty_batch_changes_nothing() {
    let mut state = store_with(&["ETH"], vec![1], vec![2], vec![3]);
    update_refs(&mut state, &Vec::new(), &Vec::new(), &Vec::new(), &Vec::new()).unwrap();
    assert_eq!(Some(RefData { rate: 1, resolve_time: 2, request_id: 3 }), state.get("ETH"));
    assert_eq!(1, state.refs().len());
}

#[test]
fn mismatched_lengths_are_rejected_without_writing() {
    let mut state = store_with(&["ETH"], vec![1], vec![2], vec![3]);
    let cases: Vec<(Vec<u64>, Vec<u64>, Vec<u64>)> = vec![
        (vec![9], vec![9, 9], vec![9, 9]),
        (vec![9, 9], vec![9], vec![9, 9]),
        (vec![9, 9], vec![9, 9], vec![9]),
        (vec![], vec![], vec![]),
    ];
    for (rates, times, ids) in cases {
        let r = update_refs(&mut state, &strings(&["ETH", "BAND"]), &rates, &times, &ids);
        assert_eq!(Err(ContractError::MismatchedBatchLength), r);
        assert_eq!(Some(RefData { rate: 1, resolve_time: 2, request_id: 3 }), state.get("ETH"));
        assert_eq!(None, state.get("BAND"));
        assert_eq!(1, state.refs().len());
    }
}

#[test]
fn execute_reports_mismatched_lengths() {
    let mut state = instantiate();
    let msg = ExecuteMsg::Relay {
        symbols: strings(&["ETH"]),
        rates: vec![1, 2],
        resolve_times: vec![1],
        request_ids: vec![1],
    };
    assert_eq!(Err(ContractError::MismatchedBatchLength), execute(&mut state, msg));
    assert_eq!(0, state.refs().len());
}

#[test]
fn second_batch_replaces_every_field() {
    let mut state = store_with(&["MATIC", "ETH"], vec![12, 1], vec![124824, 2], vec![69, 3]);
    update_refs(&mut state, &strings(&["MATIC"]), &vec![24], &vec![999], &vec![70]).unwrap();
    assert_eq!(Some(RefData { rate: 24, resolve_time: 999, request_id: 70 }), state.get("MATIC"));
    assert_eq!(Some(RefData { rate: 1, resolve_time: 2, request_id: 3 }), state.get("ETH"));
}

#[test]
fn anchor_resolves_to_fixed_rate_at_query_time() {
    let empty = State::new();
    let full = store_with(&["USD", "ETH"], vec![7, 8], vec![0, 9], vec![1, 1]);
    for t in [0u64, 1, 1571797419879305533, u64::MAX] {
        let expected = Ok(RefDataResponse { rate: 1_000_000_000, last_update: t });
        assert_eq!(expected, get_ref_data(&empty, &"USD".to_string(), t));
        assert_eq!(expected, get_ref_data(&full, &"USD".to_string(), t));
    }
}

#[test]
fn unresolved_and_unknown_symbols_fail() {
    let state = store_with(&["ETH", "BAND"], vec![1, 100], vec![0, 200], vec![3, 300]);
    assert_eq!(Err(ContractError::RefDataNotAvailable), get_ref_data(&state, &"ETH".to_string(), 5));
    assert_eq!(Err(ContractError::UnknownSymbol), get_ref_data(&state, &"BTC".to_string(), 5));
    assert_eq!(Err(ContractError::UnknownSymbol), get_ref_data(&state, &"usd".to_string(), 5));
    assert_eq!(Ok(RefDataResponse { rate: 100, last_update: 200 }), get_ref_data(&state, &"BAND".to_string(), 5));
}

#[test]
fn reference_data_errors_come_from_base_first() {
    let state = store_with(&["ETH", "ZERO"], vec![1, 0], vec![0, 7], vec![3, 4]);
    let usd = "USD".to_string();
    let eth = "ETH".to_string();
    let btc = "BTC".to_string();
    let zero = "ZERO".to_string();
    assert_eq!(Err(ContractError::RefDataNotAvailable), get_reference_data(&state, &eth, &btc, 1));
    assert_eq!(Err(ContractError::UnknownSymbol), get_reference_data(&state, &btc, &eth, 1));
    assert_eq!(Err(ContractError::RefDataNotAvailable), get_reference_data(&state, &usd, &eth, 1));
    assert_eq!(Err(ContractError::DivisionByZero), get_reference_data(&state, &usd, &zero, 1));
    assert_eq!(
        Ok(ReferenceData { rate: 0, last_updated_base: 7, last_updated_quote: 1 }),
        get_reference_data(&state, &zero, &usd, 1)
    );
}

#[test]
fn cross_rate_formula_values() {
    let base = RefDataResponse { rate: 3, last_update: 11 };
    let quote = RefDataResponse { rate: 7, last_update: 13 };
    assert_eq!(
        Ok(ReferenceData { rate: 428571428571428571, last_updated_base: 11, last_updated_quote: 13 }),
        cross_rate(&base, &quote)
    );
    assert_eq!(
        Err(ContractError::DivisionByZero),
        cross_rate(&base, &RefDataResponse { rate: 0, last_update: 1 })
    );
}

#[test]
fn cross_rate_does_not_overflow_at_the_largest_rate() {
    let base = RefDataResponse { rate: u64::MAX, last_update: u64::MAX };
    let quote = RefDataResponse { rate: 1, last_update: 0 };
    let r = cross_rate(&base, &quote).unwrap();
    assert_eq!(18446744073709551615000000000000000000u128, r.rate);
    assert_eq!(u64::MAX as u128, r.last_updated_base);
    assert_eq!(0u128, r.last_updated_quote);
}

#[test]
fn cross_rates_in_both_directions_multiply_to_scale_squared() {
    let state = store_with(&["ETH", "MATIC"], vec![3, 7], vec![1, 1], vec![1, 1]);
    let eth = "ETH".to_string();
    let matic = "MATIC".to_string();
    let ab = get_reference_data(&state, &eth, &matic, 2).unwrap().rate;
    let ba = get_reference_data(&state, &matic, &eth, 2).unwrap().rate;
    let scale_squared = num::BigUint::from(10u32).pow(36);
    let product = num::BigUint::from(ab) * num::BigUint::from(ba);
    let raised = num::BigUint::from(ab + 1) * num::BigUint::from(ba + 1);
    assert!(product <= scale_squared);
    assert!(raised > scale_squared);
}

#[test]
fn matic_scenario_against_usd() {
    let mut state = instantiate();
    execute(
        &mut state,
        ExecuteMsg::Relay {
            symbols: strings(&["MATIC"]),
            rates: vec![112],
            resolve_times: vec![1625108298000000000],
            request_ids: vec![124],
        },
    )
    .unwrap();
    let msg = QueryMsg::GetReferenceData { base: "USD".to_string(), quote: "MATIC".to_string() };
    match query(&state, 1571797419879305533, &msg) {
        Ok(QueryResponse::ReferenceData(d)) => {
            assert_eq!(8928571428571428571428571u128, d.rate);
            assert_eq!(1571797419879305533u128, d.last_updated_base);
            assert_eq!(1625108298000000000u128, d.last_updated_quote);
        }
        other => panic!("unexpected response {:?}", other),
    }
}

#[test]
fn query_reports_resolution_errors() {
    let state = instantiate();
    let msg = QueryMsg::GetReferenceData { base: "USD".to_string(), quote: "MATIC".to_string() };
    assert!(matches!(query(&state, 1, &msg), Err(ContractError::UnknownSymbol)));
}
