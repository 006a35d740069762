//! The filter builder: a pure mapping from a scenario code to a filter
//! document, drawing addresses from the token pool. Scenarios 3, 4 and 5
//! yield an `in` filter over 10, 100 or 500 distinct addresses; every
//! other scenario yields an `eq` filter over a single address.

use vstd::prelude::*;
use crate::bytes::{ascii_bytes, ascii_view};
use crate::tokens::{views_of, TokenPool};

verus! {

/// A server-evaluated predicate over message tags.
pub enum FilterValue {
    Single { key: Vec<u8>, cmp: Vec<u8>, val: Vec<u8> },
    Multiple { key: Vec<u8>, cmp: Vec<u8>, vals: Vec<Vec<u8>> },
}

/// How many addresses an `in` filter draws for a multi-address scenario.
pub open spec fn spec_multi_count(scenario: u8) -> int {
    if scenario == 3 {
        10
    } else if scenario == 4 {
        100
    } else {
        500
    }
}

/// What `build_filter` owes for a given scenario and pool: the right
/// variant, the fixed key, the right comparator, and pairwise-distinct
/// addresses drawn from the pool.
pub open spec fn filter_ok(f: FilterValue, scenario: u8, pool: Seq<Seq<u8>>) -> bool {
    if scenario == 3 || scenario == 4 || scenario == 5 {
        match f {
            FilterValue::Multiple { key, cmp, vals } => {
                &&& key@ == ascii_view("token_address")
                &&& cmp@ == ascii_view("in")
                &&& views_of(vals@).len() == if spec_multi_count(scenario) <= pool.len() {
                    spec_multi_count(scenario)
                } else {
                    pool.len() as int
                }
                &&& forall|k: int|
                    0 <= k < vals@.len() ==> pool.contains(#[trigger] views_of(vals@)[k])
                &&& views_of(vals@).no_duplicates()
            },
            FilterValue::Single { .. } => false,
        }
    } else {
        match f {
            FilterValue::Single { key, cmp, val } => {
                &&& key@ == ascii_view("token_address")
                &&& cmp@ == ascii_view("eq")
                &&& pool.contains(val@)
            },
            FilterValue::Multiple { .. } => false,
        }
    }
}

/// Build the filter document for a scenario by drawing from the pool.
pub fn build_filter(scenario: u8, tokens: &TokenPool) -> (r: FilterValue)
    requires
        tokens.wf(),
    ensures
        filter_ok(r, scenario, tokens@),
{
    proof {
        reveal_strlit("token_address");
        reveal_strlit("eq");
        reveal_strlit("in");
    }
    if scenario == 3 || scenario == 4 || scenario == 5 {
        let count: usize = if scenario == 3 {
            10
        } else if scenario == 4 {
            100
        } else {
            500
        };
        FilterValue::Multiple {
            key: ascii_bytes("token_address"),
            cmp: ascii_bytes("in"),
            vals: tokens.get_random_unique(count),
        }
    } else {
        let val = tokens.get_random();
        FilterValue::Single { key: ascii_bytes("token_address"), cmp: ascii_bytes("eq"), val }
    }
}

} // verus!
