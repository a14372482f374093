//! The butterfly scanner: two pointers expand outward from the body
//! contract, pairing left and right wings by equal absolute strike
//! distance; each balanced pair yields a full metric record.

use vstd::prelude::*;

use crate::chain::{normalize_chain, normalize_spec, sort_items, sort_spec, adjacent_strikes_strict,
    lemma_adjacent_strict};
use crate::locate::{abs_diff, abs_diff_cents, find_starting_option, locate_spec};
use crate::metrics::{build_stats, stats_matches};
use crate::structs::{chain_bounded, item_bounded, request_chain_bounded,
    strictly_sorted_by_strike, Item, Output, RequestBody, ScanError, Stats, MAX_CENTS};

verus! {

/// The pointer walk of the butterfly scan from wing candidates `(left,
/// right)` outward, around the body at `body`: the pairs it emits, in
/// order, or `None` where the walk would step past an end of the chain:
/// a step that would read one position past the chain, or take a wing
/// below position zero, ends the scan with a refusal instead.
///
/// While both distances to the body differ, the nearer pointer moves
/// outward; a balanced pair is emitted and the right pointer moves on.
pub open spec fn bf_scan(chain: Seq<Item>, body: int, left: int, right: int) -> Option<
    Seq<(usize, usize)>,
>
    decreases left + chain.len() - right,
{
    if right >= chain.len() {
        if left <= 0 {
            Some(Seq::empty())
        } else {
            None
        }
    } else if left < 0 {
        None
    } else {
        let ld = abs_diff(chain[left].strike as int, chain[body].strike as int);
        let rd = abs_diff(chain[right].strike as int, chain[body].strike as int);
        if ld < rd {
            if left == 0 {
                None
            } else {
                bf_scan(chain, body, left - 1, right)
            }
        } else if ld > rd {
            bf_scan(chain, body, left, right + 1)
        } else {
            match bf_scan(chain, body, left, right + 1) {
                Some(rest) => Some(seq![(left as usize, right as usize)] + rest),
                None => None,
            }
        }
    }
}

/// The wing pairs a butterfly scan of `chain` for `target` emits, or why
/// it refuses: no body inside the chain (also when the body is the very
/// first contract, which leaves no room for a left wing), or a pointer
/// walk off an end.
pub open spec fn butterfly_pairs(chain: Seq<Item>, target: int) -> Result<
    Seq<(usize, usize)>,
    ScanError,
> {
    match locate_spec(chain, target) {
        Option::None => Result::Err(ScanError::TargetNotInChain),
        Option::Some(b) => if b < 1 {
            Result::Err(ScanError::TargetNotInChain)
        } else {
            match bf_scan(chain, b, b - 1, b + 1) {
                Option::Some(pairs) => Result::Ok(pairs),
                Option::None => Result::Err(ScanError::InvalidChain),
            }
        },
    }
}

/// Runs the butterfly scan over a chain already normalized and sorted:
/// every balanced wing pair around the located body, each with its full
/// metric record.
pub fn butterfly_hunting(option_chain: &Vec<Item>, target_price: i64) -> (r: Result<
    Vec<Stats>,
    ScanError,
>)
    requires
        chain_bounded(option_chain@),
        0 <= target_price <= MAX_CENTS,
    ensures
        match r {
            Ok(v) => {
                &&& butterfly_pairs(option_chain@, target_price as int) matches Ok(pairs)
                    && v@.len() == pairs.len()
                    && (forall|k: int|
                    0 <= k < pairs.len() ==> stats_matches(
                        #[trigger] v@[k],
                        option_chain@,
                        locate_spec(option_chain@, target_price as int).unwrap(),
                        pairs[k].0 as int,
                        pairs[k].1 as int,
                    ))
            },
            Err(e) => butterfly_pairs(option_chain@, target_price as int) == Result::<
                Seq<(usize, usize)>,
                ScanError,
            >::Err(e),
        },
{
    let body: usize = match find_starting_option(option_chain, target_price) {
        Ok(p) => p.0,
        Err(_) => {
            return Err(ScanError::TargetNotInChain);
        },
    };
    if body < 1 {
        return Err(ScanError::TargetNotInChain);
    }
    let n = option_chain.len();
    let mut left: usize = body - 1;
    let mut right: usize = body + 1;
    let mut results: Vec<Stats> = Vec::new();
    let ghost mut gpairs: Seq<(usize, usize)> = Seq::empty();
    while right < n || left > 0
        invariant
            chain_bounded(option_chain@),
            n == option_chain@.len(),
            locate_spec(option_chain@, target_price as int) == Some(body as int),
            1 <= body < n,
            left < body < right,
            right <= n,
            results@.len() == gpairs.len(),
            forall|k: int|
                0 <= k < gpairs.len() ==> stats_matches(
                    #[trigger] results@[k],
                    option_chain@,
                    body as int,
                    gpairs[k].0 as int,
                    gpairs[k].1 as int,
                ),
            bf_scan(option_chain@, body as int, body - 1, body + 1) == (match bf_scan(
                option_chain@,
                body as int,
                left as int,
                right as int,
            ) {
                Option::Some(rest) => Option::Some(gpairs + rest),
                Option::None => Option::<Seq<(usize, usize)>>::None,
            }),
        decreases left + n - right,
    {
        if right >= n {
            return Err(ScanError::InvalidChain);
        }
        assert(item_bounded(option_chain@[left as int]));
        assert(item_bounded(option_chain@[right as int]));
        assert(item_bounded(option_chain@[body as int]));
        let ld = abs_diff_cents(option_chain[left].strike, option_chain[body].strike);
        let rd = abs_diff_cents(option_chain[right].strike, option_chain[body].strike);
        if ld < rd {
            if left == 0 {
                return Err(ScanError::InvalidChain);
            }
            left = left - 1;
        } else if ld > rd {
            right = right + 1;
        } else {
            let st = build_stats(option_chain, body, left, right);
            results.push(st);
            proof {
                let p = (left as usize, right as usize);
                if let Option::Some(rest) = bf_scan(
                    option_chain@,
                    body as int,
                    left as int,
                    right as int + 1,
                ) {
                    assert(gpairs + (seq![p] + rest) =~= (gpairs.push(p)) + rest);
                }
                gpairs = gpairs.push(p);
            }
            right = right + 1;
        }
    }
    proof {
        assert(bf_scan(option_chain@, body as int, left as int, right as int) == Option::Some(
            Seq::<(usize, usize)>::empty(),
        ));
        assert(gpairs + Seq::<(usize, usize)>::empty() =~= gpairs);
    }
    Ok(results)
}

/// Finds every balanced call butterfly around the request's target:
/// normalizes and sorts the chain, refuses chains with duplicate strikes,
/// scans, and echoes the request back beside the matches.
pub fn hunt_for_call_butterflies(recieved: RequestBody) -> (r: Result<Output, ScanError>)
    requires
        request_chain_bounded(recieved.chain@),
        0 <= recieved.target <= MAX_CENTS,
    ensures
        match r {
            Ok(out) => {
                &&& out.input == recieved
                &&& strictly_sorted_by_strike(sort_spec(normalize_spec(recieved.chain@)))
                &&& butterfly_pairs(
                    sort_spec(normalize_spec(recieved.chain@)),
                    recieved.target as int,
                ) matches Ok(pairs) && out.output@.len() == pairs.len() && (forall|k: int|
                    0 <= k < pairs.len() ==> stats_matches(
                        #[trigger] out.output@[k],
                        sort_spec(normalize_spec(recieved.chain@)),
                        locate_spec(
                            sort_spec(normalize_spec(recieved.chain@)),
                            recieved.target as int,
                        ).unwrap(),
                        pairs[k].0 as int,
                        pairs[k].1 as int,
                    ))
            },
            Err(e) => {
                ||| (e == ScanError::InvalidChain && !strictly_sorted_by_strike(
                    sort_spec(normalize_spec(recieved.chain@)),
                ))
                ||| (strictly_sorted_by_strike(sort_spec(normalize_spec(recieved.chain@)))
                    && butterfly_pairs(
                    sort_spec(normalize_spec(recieved.chain@)),
                    recieved.target as int,
                ) == Result::<Seq<(usize, usize)>, ScanError>::Err(e))
            },
        },
{
    let items = normalize_chain(&recieved.chain);
    let sorted = sort_items(items);
    proof {
        lemma_sort_keeps_bounded(normalize_spec(recieved.chain@));
    }
    if !adjacent_strikes_strict(&sorted) {
        return Err(ScanError::InvalidChain);
    }
    proof {
        lemma_adjacent_strict(sorted@);
    }
    match butterfly_hunting(&sorted, recieved.target) {
        Ok(stats) => Ok(Output { input: recieved, output: stats }),
        Err(e) => Err(e),
    }
}

/// Sorting keeps every contract of a bounded chain bounded.
pub proof fn lemma_sort_keeps_bounded(s: Seq<Item>)
    requires
        chain_bounded(s),
    ensures
        chain_bounded(sort_spec(s)),
{
    lemma_sort_prefix_keeps_bounded(s, s.len() as int);
}

proof fn lemma_sort_prefix_keeps_bounded(s: Seq<Item>, n: int)
    requires
        chain_bounded(s),
        n <= s.len(),
    ensures
        chain_bounded(crate::chain::sort_prefix_spec(s, n)),
    decreases n,
{
    if n > 0 {
        lemma_sort_prefix_keeps_bounded(s, n - 1);
        let prev = crate::chain::sort_prefix_spec(s, n - 1);
        crate::chain::lemma_first_above_props(prev, s[n - 1]);
        let fa = crate::chain::first_above(prev, s[n - 1]);
        let cur = crate::chain::sort_prefix_spec(s, n);
        assert(cur == prev.insert(fa, s[n - 1]));
        prev.insert_ensures(fa, s[n - 1]);
        assert forall|i: int| 0 <= i < cur.len() implies item_bounded(#[trigger] cur[i]) by {
            if i < fa {
                assert(cur[i] == prev[i]);
            } else if i == fa {
                assert(cur[i] == s[n - 1]);
            } else {
                assert(cur[i] == prev[i - 1]);
            }
        }
    }
}

} // verus!
