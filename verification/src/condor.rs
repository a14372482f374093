//! The condor scanner: the same distance-matching pointer walk as the
//! butterfly scan, but run between a fixed inner pair of strikes
//! bracketing the target and a moving outer pair; every matched walk
//! position records a nested index range, and the collected ranges are
//! then combined pairwise, outer shell against inner shell.

use vstd::prelude::*;

use crate::chain::{normalize_chain, normalize_spec, sort_items, sort_spec, adjacent_strikes_strict,
    lemma_adjacent_strict};
use crate::locate::{abs_diff, abs_diff_cents, find_starting_option, locate_spec};
use crate::structs::{chain_bounded, item_bounded, request_chain_bounded,
    strictly_sorted_by_strike, CondorContext, CondorOutput, CondorStats, Item, RequestBody,
    ScanError, MAX_CENTS};

verus! {

/// The pointer walk of the condor scan from outer candidates `(ol, orr)`
/// outward, with the inner pair fixed at `(il, ir)`: the outer index
/// pairs it matches, in order, or `None` where the walk would step past
/// an end of the chain. A pair matches when the distance from the outer
/// left leg down to the inner left leg equals the distance from the outer
/// right leg up to the inner right leg.
pub open spec fn cd_scan(chain: Seq<Item>, il: int, ir: int, ol: int, orr: int) -> Option<
    Seq<(usize, usize)>,
>
    decreases ol + chain.len() - orr,
{
    if orr >= chain.len() {
        if ol <= 0 {
            Some(Seq::empty())
        } else {
            None
        }
    } else if ol < 0 {
        None
    } else {
        let ld = abs_diff(chain[ol].strike as int, chain[il].strike as int);
        let rd = abs_diff(chain[orr].strike as int, chain[ir].strike as int);
        if ld < rd {
            if ol == 0 {
                None
            } else {
                cd_scan(chain, il, ir, ol - 1, orr)
            }
        } else if ld > rd {
            cd_scan(chain, il, ir, ol, orr + 1)
        } else {
            match cd_scan(chain, il, ir, ol, orr + 1) {
                Some(rest) => Some(seq![(ol as usize, orr as usize)] + rest),
                None => None,
            }
        }
    }
}

/// All nested ranges the condor scan collects around the body at `b`:
/// the inner pair itself first, then every matched outer pair, narrowest
/// to widest.
pub open spec fn condor_ranges(chain: Seq<Item>, b: int) -> Option<Seq<(usize, usize)>> {
    match cd_scan(chain, b, b + 1, b - 1, b + 2) {
        Option::Some(ms) => Option::Some(seq![(b as usize, (b + 1) as usize)] + ms),
        Option::None => Option::None,
    }
}

/// The combinations the head range of `rev` forms as outer shell: one
/// quadruple with each later range as inner shell.
pub open spec fn pair_head(rev: Seq<(usize, usize)>) -> Seq<CondorContext> {
    Seq::new((rev.len() - 1) as nat, |k: int| CondorContext {
        left: rev[0].0,
        ileft: rev[k + 1].0,
        iright: rev[k + 1].1,
        right: rev[0].1,
    })
}

/// Every ordered pairing of the ranges in `rev`: each range as outer
/// shell against every range after it as inner shell, in traversal
/// order. Nesting of the pair is not re-checked here; it holds by the
/// way the walk collects ranges.
pub open spec fn combos(rev: Seq<(usize, usize)>) -> Seq<CondorContext>
    decreases rev.len(),
{
    if rev.len() == 0 {
        Seq::empty()
    } else {
        pair_head(rev) + combos(rev.drop_first())
    }
}

/// The condor quadruples a scan of `chain` for `target` emits, or why it
/// refuses, mirroring the butterfly scan's refusals.
pub open spec fn condor_quads(chain: Seq<Item>, target: int) -> Result<
    Seq<CondorContext>,
    ScanError,
> {
    match locate_spec(chain, target) {
        Option::None => Result::Err(ScanError::TargetNotInChain),
        Option::Some(b) => if b < 1 {
            Result::Err(ScanError::TargetNotInChain)
        } else {
            match condor_ranges(chain, b) {
                Option::Some(rs) => Result::Ok(combos(rs.reverse())),
                Option::None => Result::Err(ScanError::InvalidChain),
            }
        },
    }
}

/// Runs the condor scan over a chain already normalized and sorted.
pub fn condor_hunting(option_chain: &Vec<Item>, target_price: i64) -> (r: Result<
    Vec<CondorStats>,
    ScanError,
>)
    requires
        chain_bounded(option_chain@),
        0 <= target_price <= MAX_CENTS,
    ensures
        match r {
            Ok(v) => {
                &&& condor_quads(option_chain@, target_price as int) matches Ok(quads)
                    && v@.len() == quads.len()
                    && (forall|k: int|
                    0 <= k < quads.len() ==> #[trigger] v@[k] == (CondorStats {
                        context: quads[k],
                    }))
            },
            Err(e) => condor_quads(option_chain@, target_price as int) == Result::<
                Seq<CondorContext>,
                ScanError,
            >::Err(e),
        },
{
    let body: usize = match find_starting_option(option_chain, target_price) {
        Ok(p) => p.0,
        Err(_) => {
            return Err(ScanError::TargetNotInChain);
        },
    };
    if body < 1 {
        return Err(ScanError::TargetNotInChain);
    }
    let n = option_chain.len();
    let mut ranges: Vec<(usize, usize)> = Vec::new();
    ranges.push((body, body + 1));
    let mut ol: usize = body - 1;
    let mut orr: usize = body + 2;
    while orr < n || ol > 0
        invariant
            chain_bounded(option_chain@),
            n == option_chain@.len(),
            locate_spec(option_chain@, target_price as int) == Some(body as int),
            1 <= body,
            body + 1 < n,
            ol < body,
            body + 1 < orr,
            orr <= n,
            ranges@.len() >= 1,
            condor_ranges(option_chain@, body as int) == (match cd_scan(
                option_chain@,
                body as int,
                body + 1,
                ol as int,
                orr as int,
            ) {
                Option::Some(rest) => Option::Some(ranges@ + rest),
                Option::None => Option::<Seq<(usize, usize)>>::None,
            }),
        decreases ol + n - orr,
    {
        if orr >= n {
            return Err(ScanError::InvalidChain);
        }
        assert(item_bounded(option_chain@[ol as int]));
        assert(item_bounded(option_chain@[orr as int]));
        assert(item_bounded(option_chain@[body as int]));
        assert(item_bounded(option_chain@[body as int + 1]));
        let ld = abs_diff_cents(option_chain[ol].strike, option_chain[body].strike);
        let rd = abs_diff_cents(option_chain[orr].strike, option_chain[body + 1].strike);
        if ld < rd {
            if ol == 0 {
                return Err(ScanError::InvalidChain);
            }
            ol = ol - 1;
        } else if ld > rd {
            orr = orr + 1;
        } else {
            proof {
                let p = (ol as usize, orr as usize);
                if let Option::Some(rest) = cd_scan(
                    option_chain@,
                    body as int,
                    body + 1,
                    ol as int,
                    orr as int + 1,
                ) {
                    assert(ranges@ + (seq![p] + rest) =~= (ranges@.push(p)) + rest);
                }
            }
            ranges.push((ol, orr));
            orr = orr + 1;
        }
    }
    proof {
        assert(cd_scan(option_chain@, body as int, body + 1, ol as int, orr as int)
            == Option::Some(Seq::<(usize, usize)>::empty()));
        assert(ranges@ + Seq::<(usize, usize)>::empty() =~= ranges@);
    }

    // reverse the collected ranges so traversal proceeds outer-to-inner
    let m = ranges.len();
    let mut rev: Vec<(usize, usize)> = Vec::new();
    let mut i: usize = m;
    while i > 0
        invariant
            i <= m,
            m == ranges@.len(),
            rev@.len() == m - i,
            forall|k: int| 0 <= k < m - i ==> #[trigger] rev@[k] == ranges@[m - 1 - k],
        decreases i,
    {
        i = i - 1;
        let p = ranges[i];
        rev.push(p);
    }
    proof {
        assert(rev@ =~= ranges@.reverse());
    }

    // every ordered pair of ranges: outer shell, then each later inner shell
    let mut out: Vec<CondorStats> = Vec::new();
    let ghost mut gq: Seq<CondorContext> = Seq::empty();
    let mut x: usize = 0;
    proof {
        assert(rev@.skip(0) =~= rev@);
    }
    while x < m
        invariant
            x <= m,
            m == rev@.len(),
            out@.len() == gq.len(),
            forall|k: int|
                0 <= k < gq.len() ==> #[trigger] out@[k] == (CondorStats { context: gq[k] }),
            combos(rev@) == gq + combos(rev@.skip(x as int)),
        decreases m - x,
    {
        let ghost ph = pair_head(rev@.skip(x as int));
        let mut y: usize = x + 1;
        proof {
            assert(rev@.skip(x as int).drop_first() =~= rev@.skip(x as int + 1));
            assert(combos(rev@.skip(x as int)) == ph + combos(rev@.skip(x as int + 1)));
            assert(ph.skip(0) =~= ph);
            assert(gq + (ph + combos(rev@.skip(x as int + 1))) =~= gq + ph.skip(0) + combos(
                rev@.skip(x as int + 1),
            ));
        }
        while y < m
            invariant
                x < y <= m,
                m == rev@.len(),
                ph == pair_head(rev@.skip(x as int)),
                out@.len() == gq.len(),
                forall|k: int|
                    0 <= k < gq.len() ==> #[trigger] out@[k] == (CondorStats { context: gq[k] }),
                combos(rev@) == gq + ph.skip(y as int - x as int - 1) + combos(
                    rev@.skip(x as int + 1),
                ),
            decreases m - y,
        {
            let px = rev[x];
            let py = rev[y];
            let cs = CondorStats {
                context: CondorContext { left: px.0, ileft: py.0, iright: py.1, right: px.1 },
            };
            proof {
                let j = y as int - x as int - 1;
                assert(rev@.skip(x as int)[j + 1] == rev@[y as int]);
                assert(ph[j] == cs.context);
                assert(ph.skip(j) =~= seq![ph[j]] + ph.skip(j + 1));
                assert(gq + ph.skip(j) + combos(rev@.skip(x as int + 1)) =~= (gq.push(ph[j]))
                    + ph.skip(j + 1) + combos(rev@.skip(x as int + 1)));
                gq = gq.push(cs.context);
            }
            out.push(cs);
            y = y + 1;
        }
        proof {
            assert(ph.skip(m as int - x as int - 1) =~= Seq::<CondorContext>::empty());
            assert(gq + Seq::<CondorContext>::empty() + combos(rev@.skip(x as int + 1)) =~= gq
                + combos(rev@.skip(x as int + 1)));
        }
        x = x + 1;
    }
    proof {
        assert(rev@.skip(m as int) =~= Seq::<(usize, usize)>::empty());
        assert(gq + combos(Seq::<(usize, usize)>::empty()) =~= gq);
    }
    Ok(out)
}

/// Finds every condor combination around the request's target:
/// normalizes and sorts the chain, refuses chains with duplicate strikes,
/// scans, and echoes the request back beside the matches.
pub fn hunt_for_call_condors(recieved: RequestBody) -> (r: Result<CondorOutput, ScanError>)
    requires
        request_chain_bounded(recieved.chain@),
        0 <= recieved.target <= MAX_CENTS,
    ensures
        match r {
            Ok(out) => {
                &&& out.input == recieved
                &&& strictly_sorted_by_strike(sort_spec(normalize_spec(recieved.chain@)))
                &&& condor_quads(
                    sort_spec(normalize_spec(recieved.chain@)),
                    recieved.target as int,
                ) matches Ok(quads) && out.output@.len() == quads.len() && (forall|k: int|
                    0 <= k < quads.len() ==> #[trigger] out.output@[k] == (CondorStats {
                        context: quads[k],
                    }))
            },
            Err(e) => {
                ||| (e == ScanError::InvalidChain && !strictly_sorted_by_strike(
                    sort_spec(normalize_spec(recieved.chain@)),
                ))
                ||| (strictly_sorted_by_strike(sort_spec(normalize_spec(recieved.chain@)))
                    && condor_quads(
                    sort_spec(normalize_spec(recieved.chain@)),
                    recieved.target as int,
                ) == Result::<Seq<CondorContext>, ScanError>::Err(e))
            },
        },
{
    let items = normalize_chain(&recieved.chain);
    let sorted = sort_items(items);
    proof {
        crate::butterfly::lemma_sort_keeps_bounded(normalize_spec(recieved.chain@));
    }
    if !adjacent_strikes_strict(&sorted) {
        return Err(ScanError::InvalidChain);
    }
    proof {
        lemma_adjacent_strict(sorted@);
    }
    match condor_hunting(&sorted, recieved.target) {
        Ok(stats) => Ok(CondorOutput { input: recieved, output: stats }),
        Err(e) => Err(e),
    }
}

} // verus!
