//! The strike locator: finds the chain index nearest to, but not
//! overshooting, the target price, by a single left-to-right pass that
//! tracks the smallest strike distance seen so far.

use vstd::prelude::*;

use crate::structs::{chain_bounded, Item, TargetNotInChain, MAX_CENTS};

verus! {

/// Distance between two price readings.
pub open spec fn abs_diff(a: int, b: int) -> int {
    if a >= b {
        a - b
    } else {
        b - a
    }
}

/// The locator's pass from position `i` on, carrying the smallest distance
/// seen over positions before `i`. The first position whose distance
/// strictly exceeds that minimum ends the pass, and the position just
/// before it is the answer; a pass that never sees a strict increase
/// finds nothing.
pub open spec fn locate_from(chain: Seq<Item>, target: int, i: int, min_distance: int) -> Option<
    int,
>
    decreases chain.len() - i,
{
    if i < 0 || i >= chain.len() {
        None
    } else {
        let d = abs_diff(target, chain[i].strike as int);
        if d < min_distance {
            locate_from(chain, target, i + 1, d)
        } else if d > min_distance {
            Some(i - 1)
        } else {
            locate_from(chain, target, i + 1, min_distance)
        }
    }
}

/// Where the locator anchors a scan of `chain` for `target`, if anywhere.
pub open spec fn locate_spec(chain: Seq<Item>, target: int) -> Option<int> {
    if chain.len() == 0 {
        None
    } else {
        locate_from(chain, target, 1, abs_diff(target, chain[0].strike as int))
    }
}

/// Distance between two in-bound cent amounts.
pub fn abs_diff_cents(a: i64, b: i64) -> (r: i64)
    requires
        -4 * MAX_CENTS <= a <= 4 * MAX_CENTS,
        -4 * MAX_CENTS <= b <= 4 * MAX_CENTS,
    ensures
        r as int == abs_diff(a as int, b as int),
{
    if a >= b {
        a - b
    } else {
        b - a
    }
}

/// Finds the contract the scanners centre on: the one closest to the
/// target without overshooting it, by the pass that [`locate_spec`]
/// describes. The answer can never be the last position, since the pass
/// ends only on a strictly growing distance at the position after it.
pub fn find_starting_option(option_chain: &Vec<Item>, target_price: i64) -> (r: Result<
    (usize, Item),
    TargetNotInChain,
>)
    requires
        chain_bounded(option_chain@),
        0 <= target_price <= MAX_CENTS,
    ensures
        match r {
            Ok(p) => {
                &&& locate_spec(option_chain@, target_price as int) == Some(p.0 as int)
                &&& p.0 + 1 < option_chain@.len()
                &&& p.1 == option_chain@[p.0 as int]
            },
            Err(e) => {
                &&& locate_spec(option_chain@, target_price as int) is None
                &&& e == TargetNotInChain
            },
        },
{
    let n = option_chain.len();
    if n == 0 {
        return Err(TargetNotInChain);
    }
    let mut min_distance: i64 = abs_diff_cents(target_price, option_chain[0].strike);
    let mut i: usize = 1;
    while i < n
        invariant
            1 <= i <= n,
            n == option_chain@.len(),
            chain_bounded(option_chain@),
            0 <= target_price <= MAX_CENTS,
            0 <= min_distance <= 2 * MAX_CENTS,
            locate_spec(option_chain@, target_price as int) == locate_from(
                option_chain@,
                target_price as int,
                i as int,
                min_distance as int,
            ),
        decreases n - i,
    {
        assert(crate::structs::item_bounded(option_chain@[i as int]));
        let d = abs_diff_cents(target_price, option_chain[i].strike);
        if d < min_distance {
            min_distance = d;
        } else if d > min_distance {
            return Ok((i - 1, option_chain[i - 1]));
        }
        i = i + 1;
    }
    Err(TargetNotInChain)
}

} // verus!
