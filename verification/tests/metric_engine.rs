use butterflyman::chain::{normalize_chain, sort_items};
use butterflyman::locate::find_starting_option;
use butterflyman::metrics::{build_stats, shares_for};
use butterflyman::structs::{Ask, Bid, Item, Ratio, RequestItem, TargetNotInChain};

fn contract(strike: i64, price: i64) -> Item {
    Item {
        strike,
        ask_info: Ask { price, volume: 0 },
        bid_info: Bid { price, volume: 0 },
    }
}

#[test]
fn shares_floor_values() {
    assert_eq!(shares_for(184), 5); // floor(1000 / 184)
    assert_eq!(shares_for(1000), 1);
    assert_eq!(shares_for(1001), 0);
    assert_eq!(shares_for(333), 3);
    assert_eq!(shares_for(1), 1000);
    // a free bundle saturates the count, the integer shadow of infinity
    assert_eq!(shares_for(0), i64::MAX);
    // a credit bundle floors a negative quotient
    assert_eq!(shares_for(-184), -6);
    assert_eq!(shares_for(-1000), -1);
}

#[test]
fn shares_never_grow_with_cost() {
    let costs: Vec<i64> = vec![1, 5, 100, 184, 200, 500, 999, 1000, 1001, 5000];
    for w in costs.windows(2) {
        assert!(shares_for(w[0]) >= shares_for(w[1]));
    }
}

#[test]
fn metric_engine_exact_record() {
    let chain = vec![contract(33000, 559), contract(33500, 221), contract(34000, 67)];
    let st = build_stats(&chain, 1, 0, 2);

    assert_eq!(st.variable_on_size.cost_per_bundle, 184);
    assert_eq!(st.space.breakeven_lower, 33184);
    assert_eq!(st.space.breakeven_upper, 33816);
    assert_eq!(st.fixed.breakeven_range, 632);
    assert_eq!(st.fixed.slope, Ratio { num: 184, den: 500 });
    assert_eq!(st.variable_on_size.max_gain, Ratio { num: 632, den: 2 });
    assert_eq!(st.variable_on_size.gain_per_cost, Ratio { num: 632, den: 368 });
    assert_eq!(st.fixed.range_to_target, Ratio { num: 632, den: 33500 });
    assert_eq!(st.metric, Ratio { num: 21_172_000, den: 232_576 });
    assert_eq!(st.new_metric, Ratio { num: 3_895_648_000, den: 116_288_000 });
    assert_eq!(st.shares, 5);
    assert_eq!(st.max, Ratio { num: 3160, den: 2 });
}

#[test]
fn metric_engine_zero_cost_degenerates() {
    // wings cost exactly what the body pays back: cost 0, quotients with
    // zero denominators, saturated share count
    let chain = vec![contract(100, 50), contract(200, 50), contract(300, 50)];
    let st = build_stats(&chain, 1, 0, 2);

    assert_eq!(st.variable_on_size.cost_per_bundle, 0);
    assert_eq!(st.variable_on_size.gain_per_cost.den, 0);
    assert_eq!(st.metric.den, 0);
    assert_eq!(st.new_metric.den, 0);
    assert_eq!(st.shares, i64::MAX);
}

#[test]
fn locator_picks_closest_without_overshoot() {
    let chain = vec![contract(33000, 559), contract(33500, 221), contract(34000, 67)];
    let (idx, item) = find_starting_option(&chain, 33497).unwrap();
    assert_eq!(idx, 1);
    assert_eq!(item.strike, 33500);
}

#[test]
fn locator_tie_moves_to_upper_strike() {
    // the target sits exactly midway between two strikes: the tie is a
    // no-op for the walk, and the upper strike ends up the anchor
    let chain = vec![contract(33000, 10), contract(34000, 10), contract(35000, 10)];
    let (idx, _) = find_starting_option(&chain, 33500).unwrap();
    assert_eq!(idx, 1);
}

#[test]
fn locator_fails_past_the_last_strike() {
    let chain = vec![contract(33000, 10), contract(34000, 10)];
    assert_eq!(find_starting_option(&chain, 40000), Err(TargetNotInChain));
    assert_eq!(find_starting_option(&chain, 34000), Err(TargetNotInChain));
    let empty: Vec<Item> = vec![];
    assert_eq!(find_starting_option(&empty, 100), Err(TargetNotInChain));
}

#[test]
fn normalization_sorts_and_fills_quotes() {
    let chain = vec![
        RequestItem { strike: 34000, price: 67 },
        RequestItem { strike: 33000, price: 559 },
        RequestItem { strike: 33500, price: 221 },
    ];
    let items = normalize_chain(&chain);
    assert_eq!(items.len(), 3);
    for (it, req) in items.iter().zip(chain.iter()) {
        assert_eq!(it.strike, req.strike);
        assert_eq!(it.ask_info.price, req.price);
        assert_eq!(it.bid_info.price, req.price);
        assert_eq!(it.ask_info.volume, 0);
        assert_eq!(it.bid_info.volume, 0);
    }

    let sorted = sort_items(items);
    let strikes: Vec<i64> = sorted.iter().map(|it| it.strike).collect();
    assert_eq!(strikes, vec![33000, 33500, 34000]);
    for w in strikes.windows(2) {
        assert!(w[0] < w[1]);
    }
}
