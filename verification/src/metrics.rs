//! The metric engine: the arithmetic that turns one balanced wing pair
//! into its cost, breakevens, slope and ranking numbers. Pure functions
//! over leg data, so the formulas are testable without running a search.
//!
//! The cost convention is worst case: both wings are bought at the ask,
//! the body is sold twice at the bid. Quotients are recorded as exact
//! [`Ratio`] values in the very shape the formulas build them, so a
//! degenerate (zero or negative) cost flows through as a ratio with a
//! zero or negative denominator instead of being rejected.

use vstd::prelude::*;

use crate::structs::{
    chain_bounded, item_bounded, Context, Fixed, Item, Ratio, Space, Stats, VariableOnSize,
    MAX_CENTS,
};

verus! {

/// The fixed spending budget behind the `shares` count, in cents
/// (ten dollars).
pub const BUDGET_CENTS: i64 = 1000;

/// Net opening cost of one bundle, in cents: wings at the ask, the body
/// sold twice at the bid.
pub open spec fn cost_spec(left: Item, body: Item, right: Item) -> int {
    left.ask_info.price + right.ask_info.price - 2 * body.bid_info.price
}

/// Distance from the left wing up to the body strike, in cents.
pub open spec fn run_spec(left: Item, body: Item) -> int {
    body.strike - left.strike
}

/// Width of the profitable region, in cents: the gap between the two
/// breakeven points.
pub open spec fn breakeven_range_spec(left: Item, body: Item, right: Item) -> int {
    (right.strike - cost_spec(left, body, right)) - (left.strike + cost_spec(left, body, right))
}

/// Bundles affordable under the fixed budget: the floor of
/// `BUDGET_CENTS / cost`. A zero cost yields the saturated count
/// `i64::MAX`, the integer shadow of an infinite quotient; a negative
/// cost yields the (negative) floor of the quotient.
pub open spec fn shares_spec(cost: int) -> int {
    if cost == 0 {
        i64::MAX as int
    } else if cost > 0 {
        (BUDGET_CENTS as int) / cost
    } else {
        -(((BUDGET_CENTS as int) + (-cost) - 1) / (-cost))
    }
}

/// What every field of a [`Stats`] record holds for the match of wings
/// `l` and `r` around `body`: the formulas of the metric engine, stated
/// exactly.
pub open spec fn stats_matches(st: Stats, chain: Seq<Item>, body: int, l: int, r: int) -> bool {
    let lw = chain[l];
    let bd = chain[body];
    let rt = chain[r];
    let c = cost_spec(lw, bd, rt);
    let range = breakeven_range_spec(lw, bd, rt);
    let run = run_spec(lw, bd);
    &&& st.context.left == l
    &&& st.context.right == r
    &&& st.space.max_loss_lower == lw.strike
    &&& st.space.breakeven_lower == lw.strike + c
    &&& st.space.target == bd.strike
    &&& st.space.breakeven_upper == rt.strike - c
    &&& st.space.max_loss_upper == rt.strike
    &&& st.variable_on_size.cost_per_bundle == c
    &&& st.variable_on_size.max_gain.num == range
    &&& st.variable_on_size.max_gain.den == 2
    &&& st.variable_on_size.gain_per_cost.num == range
    &&& st.variable_on_size.gain_per_cost.den == 2 * c
    &&& st.fixed.breakeven_range == range
    &&& st.fixed.range_to_target.num == range
    &&& st.fixed.range_to_target.den == bd.strike
    &&& st.fixed.slope.num == c
    &&& st.fixed.slope.den == run
    &&& st.metric.num == range * bd.strike
    &&& st.metric.den == 2 * c * range
    &&& st.new_metric.num == range * bd.strike * c
    &&& st.new_metric.den == 2 * c * range * run
    &&& st.shares == shares_spec(c)
    &&& st.max.num == shares_spec(c) * range
    &&& st.max.den == 2
}

/// Bundles affordable under the fixed budget for a bundle costing `cost`
/// cents.
pub fn shares_for(cost: i64) -> (s: i64)
    requires
        -4 * MAX_CENTS <= cost <= 4 * MAX_CENTS,
    ensures
        s as int == shares_spec(cost as int),
{
    if cost == 0 {
        i64::MAX
    } else if cost > 0 {
        let q: u64 = (BUDGET_CENTS as u64) / (cost as u64);
        q as i64
    } else {
        let m: u64 = (-cost) as u64;
        let q: u64 = ((BUDGET_CENTS as u64) + m - 1) / m;
        -(q as i64)
    }
}

/// Builds the full metric record for the balanced pair `(left, right)`
/// around `body`, exactly as [`stats_matches`] states it.
pub fn build_stats(chain: &Vec<Item>, body: usize, left: usize, right: usize) -> (st: Stats)
    requires
        chain_bounded(chain@),
        left < body < right < chain@.len(),
    ensures
        stats_matches(st, chain@, body as int, left as int, right as int),
{
    let lw: Item = chain[left];
    let bd: Item = chain[body];
    let rt: Item = chain[right];
    assert(item_bounded(chain@[left as int]));
    assert(item_bounded(chain@[body as int]));
    assert(item_bounded(chain@[right as int]));

    let cost: i64 = lw.ask_info.price + rt.ask_info.price - 2 * bd.bid_info.price;
    let left_breakeven: i64 = lw.strike + cost;
    let right_breakeven: i64 = rt.strike - cost;
    let run: i64 = bd.strike - lw.strike;
    let breakeven_range: i64 = right_breakeven - left_breakeven;
    let shares: i64 = shares_for(cost);

    let c128: i128 = cost as i128;
    let range128: i128 = breakeven_range as i128;
    let target128: i128 = bd.strike as i128;
    let run128: i128 = run as i128;

    assert(-(2 * MAX_CENTS) <= c128 <= 2 * MAX_CENTS);
    assert(-(5 * MAX_CENTS) <= range128 <= 5 * MAX_CENTS);
    assert(0 <= target128 <= MAX_CENTS);
    assert(-MAX_CENTS <= run128 <= MAX_CENTS);

    proof {
        lemma_abs_mul_bound(
            range128 as int,
            target128 as int,
            5 * (MAX_CENTS as int),
            MAX_CENTS as int,
        );
    }
    let metric_num: i128 = range128 * target128;
    let two_cost: i128 = 2 * c128;
    proof {
        lemma_abs_mul_bound(
            two_cost as int,
            range128 as int,
            4 * (MAX_CENTS as int),
            5 * (MAX_CENTS as int),
        );
    }
    let metric_den: i128 = two_cost * range128;
    proof {
        lemma_abs_mul_bound(
            metric_num as int,
            c128 as int,
            5 * (MAX_CENTS as int) * (MAX_CENTS as int),
            2 * (MAX_CENTS as int),
        );
    }
    let new_metric_num: i128 = metric_num * c128;
    proof {
        lemma_abs_mul_bound(
            metric_den as int,
            run128 as int,
            20 * (MAX_CENTS as int) * (MAX_CENTS as int),
            MAX_CENTS as int,
        );
    }
    let new_metric_den: i128 = metric_den * run128;
    proof {
        lemma_abs_mul_bound(
            shares as int,
            range128 as int,
            i64::MAX as int,
            5 * (MAX_CENTS as int),
        );
    }
    let max_num: i128 = (shares as i128) * range128;

    Stats {
        context: Context { left, right },
        space: Space {
            max_loss_lower: lw.strike,
            breakeven_lower: left_breakeven,
            target: bd.strike,
            breakeven_upper: right_breakeven,
            max_loss_upper: rt.strike,
        },
        variable_on_size: VariableOnSize {
            cost_per_bundle: cost,
            max_gain: Ratio { num: range128, den: 2 },
            gain_per_cost: Ratio { num: range128, den: two_cost },
        },
        fixed: Fixed {
            breakeven_range,
            range_to_target: Ratio { num: range128, den: target128 },
            slope: Ratio { num: c128, den: run128 },
        },
        metric: Ratio { num: metric_num, den: metric_den },
        new_metric: Ratio { num: new_metric_num, den: new_metric_den },
        shares,
        max: Ratio { num: max_num, den: 2 },
    }
}

/// Magnitude bound of a product from magnitude bounds of its factors.
pub proof fn lemma_abs_mul_bound(a: int, b: int, abound: int, bbound: int)
    by (nonlinear_arith)
    requires
        0 <= abound,
        0 <= bbound,
        -abound <= a <= abound,
        -bbound <= b <= bbound,
    ensures
        -(abound * bbound) <= a * b <= abound * bbound,
{
}

} // verus!
