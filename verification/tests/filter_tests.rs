use std::collections::HashSet;
use ws_benchmark::filter::{build_filter, FilterValue};
use ws_benchmark::tokens::TokenPool;

fn contains(pool: &TokenPool, x: &Vec<u8>) -> bool {
    for i in 0..pool.len() {
        if pool.at(i) == x {
            return true;
        }
    }
    false
}

#[test]
fn single_scenarios_yield_eq_filter() {
    let pool = TokenPool::generate_fake(20);
    for scenario in [1u8, 2u8, 0u8, 9u8] {
        match build_filter(scenario, &pool) {
            FilterValue::Single { key, cmp, val } => {
                assert_eq!(key, b"token_address".to_vec());
                assert_eq!(cmp, b"eq".to_vec());
                assert!(contains(&pool, &val));
            }
            FilterValue::Multiple { .. } => panic!("scenario {scenario} must yield Single"),
        }
    }
}

#[test]
fn scenario_three_called_k_times_yields_ten_distinct_vals_each() {
    let pool = TokenPool::generate_fake(100);
    for _ in 0..7 {
        match build_filter(3, &pool) {
            FilterValue::Multiple { key, cmp, vals } => {
                assert_eq!(key, b"token_address".to_vec());
                assert_eq!(cmp, b"in".to_vec());
                assert_eq!(vals.len(), 10);
                let mut seen: HashSet<Vec<u8>> = HashSet::new();
                for v in &vals {
                    assert!(seen.insert(v.clone()));
                    assert!(contains(&pool, v));
                }
            }
            FilterValue::Single { .. } => panic!("scenario 3 must yield Multiple"),
        }
    }
}

#[test]
fn multi_scenarios_draw_their_sizes() {
    let pool = TokenPool::generate_fake(600);
    match build_filter(4, &pool) {
        FilterValue::Multiple { vals, .. } => assert_eq!(vals.len(), 100),
        _ => panic!("scenario 4 must yield Multiple"),
    }
    match build_filter(5, &pool) {
        FilterValue::Multiple { vals, .. } => assert_eq!(vals.len(), 500),
        _ => panic!("scenario 5 must yield Multiple"),
    }
}

#[test]
fn multi_scenario_clamps_to_pool_size() {
    let pool = TokenPool::generate_fake(7);
    match build_filter(4, &pool) {
        FilterValue::Multiple { vals, .. } => {
            assert_eq!(vals.len(), 7);
            let mut seen: HashSet<Vec<u8>> = HashSet::new();
            for v in &vals {
                assert!(seen.insert(v.clone()));
            }
        }
        _ => panic!("scenario 4 must yield Multiple"),
    }
}
