//! The laws of the library: properties that hold of normalization, of the
//! scanners and of the metric formulas, each stated over the same spec
//! functions the executable contracts use, and proved here.

use vstd::prelude::*;

use crate::butterfly::bf_scan;
use crate::chain::{first_above, insert_sorted_spec, lemma_first_above_props, sort_prefix_spec,
    sort_spec};
use crate::condor::{cd_scan, combos, condor_quads, condor_ranges, pair_head};
use crate::locate::{abs_diff, locate_from, locate_spec};
use crate::metrics::{cost_spec, shares_spec, stats_matches};
use crate::structs::{sorted_by_strike, strictly_sorted_by_strike, CondorContext, Item, Stats};

verus! {

/// Inserting at any position adds exactly that element to a sequence's
/// multiset.
proof fn lemma_seq_insert_multiset(s: Seq<Item>, j: int, x: Item)
    requires
        0 <= j <= s.len(),
    ensures
        s.insert(j, x).to_multiset() == s.to_multiset().insert(x),
{
    broadcast use vstd::multiset::group_multiset_axioms;
    broadcast use vstd::seq_lib::group_to_multiset_ensures;

    let t = s.insert(j, x);
    s.insert_ensures(j, x);
    assert(t.remove(j) =~= s);
    vstd::seq_lib::to_multiset_remove(t, j);
    assert(t[j] == x);
    assert(t.to_multiset().contains(x));
    assert(t.to_multiset() =~= s.to_multiset().insert(x));
}

/// One insertion-sort step keeps the sequence sorted by strike.
proof fn lemma_insert_sorted_sorted(s: Seq<Item>, x: Item)
    requires
        sorted_by_strike(s),
    ensures
        sorted_by_strike(insert_sorted_spec(s, x)),
{
    lemma_first_above_props(s, x);
    let fa = first_above(s, x);
    let t = s.insert(fa, x);
    s.insert_ensures(fa, x);
    assert forall|i: int, j: int| 0 <= i < j < t.len() implies t[i].strike <= t[j].strike by {
        if i < fa {
            assert(t[i] == s[i]);
        } else if i > fa {
            assert(t[i] == s[i - 1]);
        }
        if j < fa {
            assert(t[j] == s[j]);
        } else if j > fa {
            assert(t[j] == s[j - 1]);
        }
    }
}

/// Sorting law, first half: the sorted chain really is sorted by strike.
pub proof fn lemma_sort_spec_sorted(s: Seq<Item>)
    ensures
        sorted_by_strike(sort_spec(s)),
{
    lemma_sort_prefix_sorted(s, s.len() as int);
}

proof fn lemma_sort_prefix_sorted(s: Seq<Item>, n: int)
    requires
        n <= s.len(),
    ensures
        sorted_by_strike(sort_prefix_spec(s, n)),
    decreases n,
{
    if n > 0 {
        lemma_sort_prefix_sorted(s, n - 1);
        lemma_insert_sorted_sorted(sort_prefix_spec(s, n - 1), s[n - 1]);
    }
}

/// Sorting law, second half: the sorted chain holds exactly the contracts
/// it was given, as a multiset.
pub proof fn lemma_sort_spec_permutation(s: Seq<Item>)
    ensures
        sort_spec(s).to_multiset() == s.to_multiset(),
{
    lemma_sort_prefix_permutation(s, s.len() as int);
    assert(s.take(s.len() as int) =~= s);
}

proof fn lemma_sort_prefix_permutation(s: Seq<Item>, n: int)
    requires
        0 <= n <= s.len(),
    ensures
        sort_prefix_spec(s, n).to_multiset() == s.take(n).to_multiset(),
    decreases n,
{
    broadcast use vstd::seq_lib::group_to_multiset_ensures;

    if n == 0 {
        assert(s.take(0) =~= Seq::<Item>::empty());
        assert(sort_prefix_spec(s, 0).to_multiset() =~= s.take(0).to_multiset());
    } else {
        lemma_sort_prefix_permutation(s, n - 1);
        let prev = sort_prefix_spec(s, n - 1);
        lemma_first_above_props(prev, s[n - 1]);
        lemma_seq_insert_multiset(prev, first_above(prev, s[n - 1]), s[n - 1]);
        assert(s.take(n) =~= s.take(n - 1).push(s[n - 1]));
    }
}

/// Butterfly symmetry: every pair the scan emits is balanced — the left
/// and the right wing lie at equal absolute strike distance from the
/// body, measured at the moment of the match — and its wings bracket the
/// body in position.
pub proof fn lemma_butterfly_symmetry(
    chain: Seq<Item>,
    body: int,
    left: int,
    right: int,
    pairs: Seq<(usize, usize)>,
)
    requires
        bf_scan(chain, body, left, right) == Some(pairs),
        0 <= left < body < right,
        right <= chain.len(),
        chain.len() <= usize::MAX,
    ensures
        forall|k: int|
            0 <= k < pairs.len() ==> {
                let l = (#[trigger] pairs[k]).0 as int;
                let r = pairs[k].1 as int;
                &&& 0 <= l < body < r < chain.len()
                &&& abs_diff(chain[l].strike as int, chain[body].strike as int) == abs_diff(
                    chain[r].strike as int,
                    chain[body].strike as int,
                )
            },
    decreases left + chain.len() - right,
{
    if right >= chain.len() {
    } else {
        let ld = abs_diff(chain[left].strike as int, chain[body].strike as int);
        let rd = abs_diff(chain[right].strike as int, chain[body].strike as int);
        if ld < rd {
            if left > 0 {
                lemma_butterfly_symmetry(chain, body, left - 1, right, pairs);
            }
        } else if ld > rd {
            lemma_butterfly_symmetry(chain, body, left, right + 1, pairs);
        } else {
            let rest = bf_scan(chain, body, left, right + 1)->Some_0;
            lemma_butterfly_symmetry(chain, body, left, right + 1, rest);
            assert(pairs == seq![(left as usize, right as usize)] + rest);
            assert forall|k: int| 0 <= k < pairs.len() implies {
                let l = (#[trigger] pairs[k]).0 as int;
                let r = pairs[k].1 as int;
                &&& 0 <= l < body < r < chain.len()
                &&& abs_diff(chain[l].strike as int, chain[body].strike as int) == abs_diff(
                    chain[r].strike as int,
                    chain[body].strike as int,
                )
            } by {
                if k == 0 {
                    assert(pairs[0] == (left as usize, right as usize));
                } else {
                    assert(pairs[k] == rest[k - 1]);
                    assert({
                        let l = (rest[k - 1]).0 as int;
                        let r = (rest[k - 1]).1 as int;
                        &&& 0 <= l < body < r < chain.len()
                        &&& abs_diff(chain[l].strike as int, chain[body].strike as int)
                            == abs_diff(chain[r].strike as int, chain[body].strike as int)
                    });
                }
            }
        }
    }
}

/// The matching invariant, read off an emitted record: on a strictly
/// sorted chain, a balanced match puts its body strike exactly midway
/// between the two wing strikes.
pub proof fn lemma_stats_symmetry(st: Stats, chain: Seq<Item>, body: int, l: int, r: int)
    requires
        strictly_sorted_by_strike(chain),
        0 <= l < body < r < chain.len(),
        stats_matches(st, chain, body, l, r),
        abs_diff(chain[l].strike as int, chain[body].strike as int) == abs_diff(
            chain[r].strike as int,
            chain[body].strike as int,
        ),
    ensures
        st.space.target - st.space.max_loss_lower == st.space.max_loss_upper - st.space.target,
{
    assert(chain[l].strike < chain[body].strike);
    assert(chain[body].strike < chain[r].strike);
}

/// Breakeven ordering: whenever the bundle cost is positive and smaller
/// than the wing width, the lower breakeven lies strictly below the body
/// strike and the upper breakeven strictly above it. (A cost at or above
/// the wing width inverts the profit region, and the ordering fails;
/// such records are still emitted, as the formulas direct.)
pub proof fn lemma_breakeven_ordering(st: Stats, chain: Seq<Item>, body: int, l: int, r: int)
    requires
        0 <= l < body < r < chain.len(),
        stats_matches(st, chain, body, l, r),
        0 < cost_spec(chain[l], chain[body], chain[r]),
        cost_spec(chain[l], chain[body], chain[r]) < chain[body].strike - chain[l].strike,
        chain[r].strike - chain[body].strike == chain[body].strike - chain[l].strike,
    ensures
        st.space.breakeven_lower < st.space.target < st.space.breakeven_upper,
{
}

/// Shares count law: the count is the floor of the budget over the cost,
/// and it never grows as the cost grows, over positive costs.
pub proof fn lemma_shares_monotonic(c1: int, c2: int)
    requires
        0 < c1 <= c2,
    ensures
        shares_spec(c1) >= shares_spec(c2),
{
    vstd::arithmetic::div_mod::lemma_div_is_ordered_by_denominator(
        crate::metrics::BUDGET_CENTS as int,
        c1,
        c2,
    );
}

/// A located body always leaves at least one contract to its right.
proof fn lemma_locate_from_range(chain: Seq<Item>, target: int, i: int, min: int)
    requires
        1 <= i,
    ensures
        locate_from(chain, target, i, min) matches Some(b) ==> 0 <= b && b + 1 < chain.len(),
    decreases chain.len() - i,
{
    if i >= chain.len() {
    } else {
        let d = abs_diff(target, chain[i].strike as int);
        if d < min {
            lemma_locate_from_range(chain, target, i + 1, d);
        } else if d > min {
        } else {
            lemma_locate_from_range(chain, target, i + 1, min);
        }
    }
}

/// Whatever body the locator names lies before the last position.
proof fn lemma_locate_range(chain: Seq<Item>, target: int)
    ensures
        locate_spec(chain, target) matches Some(b) ==> 0 <= b && b + 1 < chain.len(),
{
    if chain.len() > 0 {
        lemma_locate_from_range(chain, target, 1, abs_diff(target, chain[0].strike as int));
    }
}

/// What the condor pointer walk collects: every matched outer pair is
/// balanced around the inner pair, lies at or beyond the walk's current
/// pointers, and later matches reach strictly further right.
proof fn lemma_cd_scan_props(
    chain: Seq<Item>,
    il: int,
    ir: int,
    ol: int,
    orr: int,
    ms: Seq<(usize, usize)>,
)
    requires
        cd_scan(chain, il, ir, ol, orr) == Some(ms),
        0 <= ol < il < ir < orr,
        orr <= chain.len(),
        chain.len() <= usize::MAX,
    ensures
        forall|k: int|
            0 <= k < ms.len() ==> {
                let p = #[trigger] ms[k];
                &&& 0 <= p.0 <= ol
                &&& orr <= p.1 < chain.len()
                &&& abs_diff(chain[p.0 as int].strike as int, chain[il].strike as int)
                    == abs_diff(chain[p.1 as int].strike as int, chain[ir].strike as int)
            },
        forall|k1: int, k2: int|
            0 <= k1 < k2 < ms.len() ==> (#[trigger] ms[k1]).1 < (#[trigger] ms[k2]).1,
    decreases ol + chain.len() - orr,
{
    if orr >= chain.len() {
    } else {
        let ld = abs_diff(chain[ol].strike as int, chain[il].strike as int);
        let rd = abs_diff(chain[orr].strike as int, chain[ir].strike as int);
        if ld < rd {
            if ol > 0 {
                lemma_cd_scan_props(chain, il, ir, ol - 1, orr, ms);
            }
        } else if ld > rd {
            lemma_cd_scan_props(chain, il, ir, ol, orr + 1, ms);
        } else {
            let rest = cd_scan(chain, il, ir, ol, orr + 1)->Some_0;
            lemma_cd_scan_props(chain, il, ir, ol, orr + 1, rest);
            assert(ms == seq![(ol as usize, orr as usize)] + rest);
            assert forall|k: int| 0 <= k < ms.len() implies {
                let p = #[trigger] ms[k];
                &&& 0 <= p.0 <= ol
                &&& orr <= p.1 < chain.len()
                &&& abs_diff(chain[p.0 as int].strike as int, chain[il].strike as int)
                    == abs_diff(chain[p.1 as int].strike as int, chain[ir].strike as int)
            } by {
                if k == 0 {
                    assert(ms[0] == (ol as usize, orr as usize));
                } else {
                    assert(ms[k] == rest[k - 1]);
                    assert({
                        let p = rest[k - 1];
                        &&& 0 <= p.0 <= ol
                        &&& orr + 1 <= p.1 < chain.len()
                        &&& abs_diff(chain[p.0 as int].strike as int, chain[il].strike as int)
                            == abs_diff(chain[p.1 as int].strike as int, chain[ir].strike as int)
                    });
                }
            }
            assert forall|k1: int, k2: int| 0 <= k1 < k2 < ms.len() implies (#[trigger] ms[k1]).1
                < (#[trigger] ms[k2]).1 by {
                if k1 == 0 {
                    assert(ms[0] == (ol as usize, orr as usize));
                    assert(ms[k2] == rest[k2 - 1]);
                    assert({
                        let p = rest[k2 - 1];
                        orr + 1 <= p.1 < chain.len()
                    });
                } else {
                    assert(ms[k1] == rest[k1 - 1]);
                    assert(ms[k2] == rest[k2 - 1]);
                }
            }
        }
    }
}

/// Ordered combination of strictly nested ranges stays strictly ordered:
/// with earlier ranges strictly wider, every pairing of an earlier range
/// (as outer shell) with a later one (as inner shell) lists its four
/// positions in strictly increasing order.
proof fn lemma_combos_ordered(rev: Seq<(usize, usize)>)
    requires
        forall|k: int| 0 <= k < rev.len() ==> (#[trigger] rev[k]).0 < rev[k].1,
        forall|k1: int, k2: int|
            0 <= k1 < k2 < rev.len() ==> (#[trigger] rev[k1]).0 < (#[trigger] rev[k2]).0
                && rev[k2].1 < rev[k1].1,
    ensures
        forall|k: int|
            0 <= k < combos(rev).len() ==> {
                let q = #[trigger] combos(rev)[k];
                &&& q.left < q.ileft
                &&& q.ileft < q.iright
                &&& q.iright < q.right
            },
    decreases rev.len(),
{
    if rev.len() == 0 {
    } else {
        let ph = pair_head(rev);
        let df = rev.drop_first();
        assert forall|k: int| 0 <= k < df.len() implies (#[trigger] df[k]).0 < df[k].1 by {
            assert(df[k] == rev[k + 1]);
        }
        assert forall|k1: int, k2: int| 0 <= k1 < k2 < df.len() implies (#[trigger] df[k1]).0
            < (#[trigger] df[k2]).0 && df[k2].1 < df[k1].1 by {
            assert(df[k1] == rev[k1 + 1]);
            assert(df[k2] == rev[k2 + 1]);
        }
        lemma_combos_ordered(df);
        assert forall|k: int| 0 <= k < combos(rev).len() implies {
            let q = #[trigger] combos(rev)[k];
            &&& q.left < q.ileft
            &&& q.ileft < q.iright
            &&& q.iright < q.right
        } by {
            if k < ph.len() {
                assert(combos(rev)[k] == ph[k]);
                assert(ph[k] == (CondorContext {
                    left: rev[0].0,
                    ileft: rev[k + 1].0,
                    iright: rev[k + 1].1,
                    right: rev[0].1,
                }));
            } else {
                assert(combos(rev)[k] == combos(df)[k - ph.len()]);
                assert({
                    let q = combos(df)[k - ph.len()];
                    &&& q.left < q.ileft
                    &&& q.ileft < q.iright
                    &&& q.iright < q.right
                });
            }
        }
    }
}

/// Condor index ordering: every quadruple the condor scan emits lists
/// its four legs in strictly increasing chain position — the outer
/// shell strictly brackets the inner shell — even though the combination
/// step never re-checks nesting; the walk can only collect strictly
/// nested ranges.
pub proof fn lemma_condor_ordering(chain: Seq<Item>, target: int, quads: Seq<CondorContext>)
    requires
        strictly_sorted_by_strike(chain),
        chain.len() <= usize::MAX,
        condor_quads(chain, target) == Ok::<Seq<CondorContext>, crate::structs::ScanError>(quads),
    ensures
        forall|k: int|
            0 <= k < quads.len() ==> {
                let q = #[trigger] quads[k];
                &&& q.left < q.ileft
                &&& q.ileft < q.iright
                &&& q.iright < q.right
            },
{
    lemma_locate_range(chain, target);
    let b = locate_spec(chain, target).unwrap();
    let ms = cd_scan(chain, b, b + 1, b - 1, b + 2)->Some_0;
    lemma_cd_scan_props(chain, b, b + 1, b - 1, b + 2, ms);
    let rs = seq![(b as usize, (b + 1) as usize)] + ms;
    assert(condor_ranges(chain, b) == Some(rs));
    let n = rs.len();

    // later ranges are strictly wider, and every range is a real range
    assert forall|k: int| 0 <= k < n implies (#[trigger] rs[k]).0 < rs[k].1 by {
        if k > 0 {
            assert(rs[k] == ms[k - 1]);
        }
    }
    assert forall|k1: int, k2: int| 0 <= k1 < k2 < n implies (#[trigger] rs[k2]).0
        < (#[trigger] rs[k1]).0 && rs[k1].1 < rs[k2].1 by {
        if k1 == 0 {
            assert(rs[k2] == ms[k2 - 1]);
        } else {
            let p1 = ms[k1 - 1];
            let p2 = ms[k2 - 1];
            assert(rs[k1] == p1);
            assert(rs[k2] == p2);
            // both are balanced around the inner pair; the later right leg
            // reaches strictly further, so its left leg must too
            assert(chain[p1.0 as int].strike < chain[b].strike);
            assert(chain[p2.0 as int].strike < chain[b].strike);
            assert(chain[p1.1 as int].strike > chain[b + 1].strike);
            assert(chain[p2.1 as int].strike > chain[b + 1].strike);
            assert(chain[p1.1 as int].strike < chain[p2.1 as int].strike);
            assert(chain[p2.0 as int].strike < chain[p1.0 as int].strike);
            if p2.0 >= p1.0 {
                if p2.0 > p1.0 {
                    assert(chain[p1.0 as int].strike < chain[p2.0 as int].strike);
                }
                assert(false);
            }
        }
    }

    // reversal turns "later is wider" into "earlier is wider"
    let rev = rs.reverse();
    assert forall|k: int| 0 <= k < rev.len() implies (#[trigger] rev[k]).0 < rev[k].1 by {
        assert(rev[k] == rs[n - 1 - k]);
    }
    assert forall|k1: int, k2: int| 0 <= k1 < k2 < rev.len() implies (#[trigger] rev[k1]).0
        < (#[trigger] rev[k2]).0 && rev[k2].1 < rev[k1].1 by {
        assert(rev[k1] == rs[n - 1 - k1]);
        assert(rev[k2] == rs[n - 1 - k2]);
    }
    lemma_combos_ordered(rev);
    assert(quads == combos(rev));
}

/// Determinism of the condor scan: any two result lists that carry the
/// quadruples the scan names are identical; with the quadruple list fixed
/// by [`condor_quads`], the whole output is a function of the input chain
/// and target.
pub proof fn lemma_condor_deterministic(
    quads: Seq<CondorContext>,
    v1: Seq<crate::structs::CondorStats>,
    v2: Seq<crate::structs::CondorStats>,
)
    requires
        v1.len() == quads.len(),
        v2.len() == quads.len(),
        forall|k: int|
            0 <= k < quads.len() ==> #[trigger] v1[k] == (crate::structs::CondorStats {
                context: quads[k],
            }),
        forall|k: int|
            0 <= k < quads.len() ==> #[trigger] v2[k] == (crate::structs::CondorStats {
                context: quads[k],
            }),
    ensures
        v1 == v2,
{
    assert(v1 =~= v2);
}

/// Determinism of the butterfly scan: any two result rows built for the
/// same chain, body and wing pair carry identical values in every field;
/// with the scan's emitted pair list fixed by [`bf_scan`], the whole
/// output is a function of the input chain and target.
pub proof fn lemma_butterfly_deterministic(
    chain: Seq<Item>,
    body: int,
    pairs: Seq<(usize, usize)>,
    v1: Seq<Stats>,
    v2: Seq<Stats>,
)
    requires
        v1.len() == pairs.len(),
        v2.len() == pairs.len(),
        forall|k: int|
            0 <= k < pairs.len() ==> stats_matches(
                #[trigger] v1[k],
                chain,
                body,
                pairs[k].0 as int,
                pairs[k].1 as int,
            ),
        forall|k: int|
            0 <= k < pairs.len() ==> stats_matches(
                #[trigger] v2[k],
                chain,
                body,
                pairs[k].0 as int,
                pairs[k].1 as int,
            ),
    ensures
        v1 == v2,
{
    assert forall|k: int| 0 <= k < pairs.len() implies v1[k] == v2[k] by {
        let a = v1[k];
        let b = v2[k];
        assert(a.context == b.context);
        assert(a.space == b.space);
        assert(a.variable_on_size.max_gain == b.variable_on_size.max_gain);
        assert(a.variable_on_size.gain_per_cost == b.variable_on_size.gain_per_cost);
        assert(a.variable_on_size == b.variable_on_size);
        assert(a.fixed.range_to_target == b.fixed.range_to_target);
        assert(a.fixed.slope == b.fixed.slope);
        assert(a.fixed == b.fixed);
        assert(a.metric == b.metric);
        assert(a.new_metric == b.new_metric);
        assert(a.max == b.max);
        assert(a == b);
    }
    assert(v1 =~= v2);
}

} // verus!
