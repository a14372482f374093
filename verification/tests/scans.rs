use butterflyman::butterfly::hunt_for_call_butterflies;
use butterflyman::condor::hunt_for_call_condors;
use butterflyman::structs::{
    CondorContext, CondorStats, Context, Fixed, Ratio, RequestBody, RequestItem, ScanError, Space,
    Stats, VariableOnSize,
};

fn butterfly_request() -> RequestBody {
    let mut option_chain = vec![
        RequestItem { strike: 34000, price: 67 },
        RequestItem { strike: 33500, price: 221 },
        RequestItem { strike: 33000, price: 559 },
    ];

    let current_price: i64 = 33497;

    // sort that chain
    option_chain.sort_by(|a, b| a.strike.cmp(&b.strike));

    RequestBody { symbol: "RANGERDAVE".to_string(), target: current_price, chain: option_chain }
}

#[test]
fn butterfly_test() {
    let request = butterfly_request();
    let out = hunt_for_call_butterflies(request.clone()).unwrap();

    assert_eq!(out.input, request);
    let expected = Stats {
        context: Context { left: 0, right: 2 },
        space: Space {
            max_loss_lower: 33000,
            breakeven_lower: 33184,
            target: 33500,
            breakeven_upper: 33816,
            max_loss_upper: 34000,
        },
        variable_on_size: VariableOnSize {
            cost_per_bundle: 184,
            max_gain: Ratio { num: 632, den: 2 },
            gain_per_cost: Ratio { num: 632, den: 368 },
        },
        fixed: Fixed {
            breakeven_range: 632,
            range_to_target: Ratio { num: 632, den: 33500 },
            slope: Ratio { num: 184, den: 500 },
        },
        metric: Ratio { num: 21_172_000, den: 232_576 },
        new_metric: Ratio { num: 3_895_648_000, den: 116_288_000 },
        shares: 5,
        max: Ratio { num: 3160, den: 2 },
    };
    assert_eq!(out.output, vec![expected]);
}

#[test]
fn butterfly_symmetry_of_match() {
    let out = hunt_for_call_butterflies(butterfly_request()).unwrap();
    for st in &out.output {
        // the matched wings lie at equal strike distance from the body
        assert_eq!(
            st.space.target - st.space.max_loss_lower,
            st.space.max_loss_upper - st.space.target
        );
    }
}

#[test]
fn butterfly_breakeven_ordering() {
    let out = hunt_for_call_butterflies(butterfly_request()).unwrap();
    for st in &out.output {
        assert!(st.variable_on_size.cost_per_bundle > 0);
        assert!(st.space.breakeven_lower < st.space.target);
        assert!(st.space.target < st.space.breakeven_upper);
    }
}

#[test]
fn butterfly_determinism() {
    let once = hunt_for_call_butterflies(butterfly_request()).unwrap();
    let twice = hunt_for_call_butterflies(butterfly_request()).unwrap();
    assert_eq!(once, twice);
}

fn condor_request() -> RequestBody {
    let mut option_chain = vec![
        RequestItem { strike: 40000, price: 67 },
        RequestItem { strike: 39000, price: 67 },
        RequestItem { strike: 38000, price: 67 },
        RequestItem { strike: 37000, price: 67 },
        RequestItem { strike: 36000, price: 67 },
        RequestItem { strike: 35000, price: 67 },
        RequestItem { strike: 34000, price: 221 },
        RequestItem { strike: 33000, price: 221 },
        RequestItem { strike: 32000, price: 559 },
        RequestItem { strike: 31500, price: 559 }, // this one shouldnt work because 5
        RequestItem { strike: 31000, price: 559 },
        RequestItem { strike: 30000, price: 559 },
        RequestItem { strike: 29000, price: 559 },
        RequestItem { strike: 28000, price: 559 },
        RequestItem { strike: 27000, price: 559 },
    ];

    let current_price: i64 = 33397;

    // sort that chain
    option_chain.sort_by(|a, b| a.strike.cmp(&b.strike));

    RequestBody { symbol: "RANGERDAVE".to_string(), target: current_price, chain: option_chain }
}

fn quad(left: usize, ileft: usize, iright: usize, right: usize) -> CondorStats {
    CondorStats { context: CondorContext { left, ileft, iright, right } }
}

#[test]
fn condor_test() {
    let request = condor_request();
    let out = hunt_for_call_condors(request.clone()).unwrap();

    assert_eq!(out.input, request);
    let expected = vec![
        quad(0, 1, 13, 14),
        quad(0, 2, 12, 14),
        quad(0, 3, 11, 14),
        quad(0, 4, 10, 14),
        quad(0, 6, 9, 14),
        quad(0, 7, 8, 14),
        quad(1, 2, 12, 13),
        quad(1, 3, 11, 13),
        quad(1, 4, 10, 13),
        quad(1, 6, 9, 13),
        quad(1, 7, 8, 13),
        quad(2, 3, 11, 12),
        quad(2, 4, 10, 12),
        quad(2, 6, 9, 12),
        quad(2, 7, 8, 12),
        quad(3, 4, 10, 11),
        quad(3, 6, 9, 11),
        quad(3, 7, 8, 11),
        quad(4, 6, 9, 10),
        quad(4, 7, 8, 10),
        quad(6, 7, 8, 9),
    ];
    assert_eq!(out.output, expected);
}

#[test]
fn condor_index_ordering() {
    let out = hunt_for_call_condors(condor_request()).unwrap();
    assert_eq!(out.output.len(), 21);
    for cs in &out.output {
        assert!(cs.context.left < cs.context.ileft);
        assert!(cs.context.ileft < cs.context.iright);
        assert!(cs.context.iright < cs.context.right);
    }
}

#[test]
fn condor_determinism() {
    let once = hunt_for_call_condors(condor_request()).unwrap();
    let twice = hunt_for_call_condors(condor_request()).unwrap();
    assert_eq!(once, twice);
}

fn small_chain() -> Vec<RequestItem> {
    vec![
        RequestItem { strike: 33000, price: 559 },
        RequestItem { strike: 33500, price: 221 },
        RequestItem { strike: 34000, price: 67 },
    ]
}

#[test]
fn target_beyond_last_strike_fails() {
    let request =
        RequestBody { symbol: "X".to_string(), target: 35000, chain: small_chain() };
    assert_eq!(hunt_for_call_butterflies(request.clone()), Err(ScanError::TargetNotInChain));
    assert_eq!(hunt_for_call_condors(request), Err(ScanError::TargetNotInChain));
}

#[test]
fn target_at_first_strike_fails() {
    let request =
        RequestBody { symbol: "X".to_string(), target: 33000, chain: small_chain() };
    assert_eq!(hunt_for_call_butterflies(request.clone()), Err(ScanError::TargetNotInChain));
    assert_eq!(hunt_for_call_condors(request), Err(ScanError::TargetNotInChain));
}

#[test]
fn target_below_first_strike_fails() {
    let request =
        RequestBody { symbol: "X".to_string(), target: 30000, chain: small_chain() };
    assert_eq!(hunt_for_call_butterflies(request.clone()), Err(ScanError::TargetNotInChain));
    assert_eq!(hunt_for_call_condors(request), Err(ScanError::TargetNotInChain));
}

#[test]
fn empty_chain_fails() {
    let request = RequestBody { symbol: "X".to_string(), target: 33000, chain: vec![] };
    assert_eq!(hunt_for_call_butterflies(request.clone()), Err(ScanError::TargetNotInChain));
    assert_eq!(hunt_for_call_condors(request), Err(ScanError::TargetNotInChain));
}

#[test]
fn duplicate_strikes_fail() {
    let chain = vec![
        RequestItem { strike: 33000, price: 559 },
        RequestItem { strike: 33000, price: 221 },
        RequestItem { strike: 34000, price: 67 },
    ];
    let request = RequestBody { symbol: "X".to_string(), target: 33400, chain };
    assert_eq!(hunt_for_call_butterflies(request.clone()), Err(ScanError::InvalidChain));
    assert_eq!(hunt_for_call_condors(request), Err(ScanError::InvalidChain));
}

#[test]
fn butterfly_walk_off_right_end_fails() {
    // body at 2100; the pair (2000, 2200) matches, and the walk then needs
    // a position past the chain's end while the left pointer still stands
    // above zero
    let chain = vec![
        RequestItem { strike: 1000, price: 100 },
        RequestItem { strike: 2000, price: 100 },
        RequestItem { strike: 2100, price: 100 },
        RequestItem { strike: 2200, price: 100 },
    ];
    let request = RequestBody { symbol: "X".to_string(), target: 2050, chain };
    assert_eq!(hunt_for_call_butterflies(request), Err(ScanError::InvalidChain));
}

#[test]
fn condor_walk_off_right_end_fails() {
    let chain = vec![
        RequestItem { strike: 10000, price: 100 },
        RequestItem { strike: 20000, price: 100 },
        RequestItem { strike: 21000, price: 100 },
        RequestItem { strike: 22000, price: 100 },
        RequestItem { strike: 23000, price: 100 },
    ];
    let request = RequestBody { symbol: "X".to_string(), target: 20500, chain };
    assert_eq!(hunt_for_call_condors(request), Err(ScanError::InvalidChain));
}

#[test]
fn condor_with_no_outer_match_is_empty() {
    let chain = vec![
        RequestItem { strike: 10000, price: 100 },
        RequestItem { strike: 20000, price: 100 },
        RequestItem { strike: 30000, price: 100 },
    ];
    let request = RequestBody { symbol: "X".to_string(), target: 24000, chain };
    let out = hunt_for_call_condors(request).unwrap();
    assert_eq!(out.output.len(), 0);
}
