//! Chain normalization: request entries become full contracts (ask and bid
//! both set to the single quoted price, volumes zero), and the chain is
//! sorted ascending by strike before any scan begins.

use vstd::prelude::*;

use crate::structs::{Ask, Bid, Item, RequestItem};

verus! {

/// The contract a request entry normalizes to: both quote sides carry the
/// one supplied price, volumes are zero.
pub open spec fn item_of(x: RequestItem) -> Item {
    Item {
        strike: x.strike,
        ask_info: Ask { price: x.price, volume: 0 },
        bid_info: Bid { price: x.price, volume: 0 },
    }
}

/// The whole request chain, normalized entry by entry.
pub open spec fn normalize_spec(s: Seq<RequestItem>) -> Seq<Item> {
    s.map_values(|x: RequestItem| item_of(x))
}

/// First position of `s` whose strike lies strictly above `x`'s strike,
/// or `s.len()` if there is none: where a stable insertion sort places `x`.
pub open spec fn first_above(s: Seq<Item>, x: Item) -> int
    decreases s.len(),
{
    if s.len() == 0 {
        0
    } else if x.strike < s[0].strike {
        0
    } else {
        1 + first_above(s.drop_first(), x)
    }
}

/// `first_above` really is the first such position.
pub proof fn lemma_first_above_props(s: Seq<Item>, x: Item)
    ensures
        0 <= first_above(s, x) <= s.len(),
        forall|k: int| 0 <= k < first_above(s, x) ==> (#[trigger] s[k]).strike <= x.strike,
        first_above(s, x) == s.len() || x.strike < s[first_above(s, x)].strike,
    decreases s.len(),
{
    if s.len() == 0 {
    } else if x.strike < s[0].strike {
    } else {
        lemma_first_above_props(s.drop_first(), x);
        let fa = first_above(s, x);
        assert forall|k: int| 0 <= k < fa implies (#[trigger] s[k]).strike <= x.strike by {
            if k >= 1 {
                assert(s[k] == s.drop_first()[k - 1]);
            }
        }
        if fa < s.len() {
            assert(s[fa] == s.drop_first()[fa - 1]);
        }
    }
}

/// One step of the stable insertion sort: `x` placed just after every
/// strike not above its own.
pub open spec fn insert_sorted_spec(s: Seq<Item>, x: Item) -> Seq<Item> {
    s.insert(first_above(s, x), x)
}

/// The first `n` entries of `s`, insertion-sorted.
pub open spec fn sort_prefix_spec(s: Seq<Item>, n: int) -> Seq<Item>
    decreases n,
{
    if n <= 0 {
        Seq::empty()
    } else {
        insert_sorted_spec(sort_prefix_spec(s, n - 1), s[n - 1])
    }
}

/// The chain sorted ascending by strike, stably: what every scan runs over.
pub open spec fn sort_spec(s: Seq<Item>) -> Seq<Item> {
    sort_prefix_spec(s, s.len() as int)
}

/// Normalizes a request chain into contracts, in order.
pub fn normalize_chain(chain: &Vec<RequestItem>) -> (out: Vec<Item>)
    ensures
        out@ == normalize_spec(chain@),
{
    let mut out: Vec<Item> = Vec::new();
    let mut i: usize = 0;
    while i < chain.len()
        invariant
            i <= chain@.len(),
            out@.len() == i,
            forall|k: int| 0 <= k < i ==> out@[k] == item_of(chain@[k]),
        decreases chain@.len() - i,
    {
        let x = chain[i];
        out.push(
            Item {
                strike: x.strike,
                ask_info: Ask { price: x.price, volume: 0 },
                bid_info: Bid { price: x.price, volume: 0 },
            },
        );
        i = i + 1;
    }
    proof {
        assert(out@ =~= normalize_spec(chain@));
    }
    out
}

/// Places one contract at its sorted position.
fn insert_one(v: Vec<Item>, x: Item) -> (out: Vec<Item>)
    ensures
        out@ == insert_sorted_spec(v@, x),
{
    let ghost orig = v@;
    let mut v = v;
    let n = v.len();
    let mut j: usize = 0;
    while j < n && v[j].strike <= x.strike
        invariant
            j <= n,
            n == v@.len(),
            v@ == orig,
            forall|k: int| 0 <= k < j ==> (#[trigger] v@[k]).strike <= x.strike,
        decreases n - j,
    {
        j = j + 1;
    }
    proof {
        lemma_first_above_props(v@, x);
        let fa = first_above(v@, x);
        if (j as int) < fa {
            assert(v@[j as int].strike <= x.strike);
            assert(false);
        }
        if fa < j as int {
            assert(v@[fa].strike <= x.strike);
            assert(false);
        }
    }
    v.insert(j, x);
    v
}

/// Sorts the chain ascending by strike (stable insertion sort).
pub fn sort_items(chain: Vec<Item>) -> (out: Vec<Item>)
    ensures
        out@ == sort_spec(chain@),
{
    let mut out: Vec<Item> = Vec::new();
    let mut i: usize = 0;
    while i < chain.len()
        invariant
            i <= chain@.len(),
            out@ == sort_prefix_spec(chain@, i as int),
        decreases chain@.len() - i,
    {
        out = insert_one(out, chain[i]);
        i = i + 1;
    }
    out
}

/// Tells whether strikes strictly increase between every adjacent pair:
/// on a sorted chain, exactly the absence of duplicate strikes.
pub fn adjacent_strikes_strict(chain: &Vec<Item>) -> (ok: bool)
    ensures
        ok <==> (forall|k: int|
            0 <= k < chain@.len() - 1 ==> (#[trigger] chain@[k]).strike < chain@[k + 1].strike),
{
    let n = chain.len();
    let mut i: usize = 1;
    while i < n
        invariant
            1 <= i,
            n == chain@.len(),
            forall|k: int| 0 <= k < i - 1 ==> (#[trigger] chain@[k]).strike < chain@[k + 1].strike,
        decreases n - i,
    {
        if chain[i - 1].strike >= chain[i].strike {
            return false;
        }
        i = i + 1;
    }
    true
}

/// Strikes that strictly increase between every adjacent pair strictly
/// increase between every pair.
pub proof fn lemma_adjacent_strict(s: Seq<Item>)
    requires
        forall|k: int| 0 <= k < s.len() - 1 ==> (#[trigger] s[k]).strike < s[k + 1].strike,
    ensures
        crate::structs::strictly_sorted_by_strike(s),
{
    assert forall|i: int, j: int| 0 <= i < j < s.len() implies s[i].strike < s[j].strike by {
        lemma_strict_chain(s, i, j);
    }
}

proof fn lemma_strict_chain(s: Seq<Item>, i: int, j: int)
    requires
        forall|k: int| 0 <= k < s.len() - 1 ==> (#[trigger] s[k]).strike < s[k + 1].strike,
        0 <= i < j < s.len(),
    ensures
        s[i].strike < s[j].strike,
    decreases j - i,
{
    if i + 1 < j {
        lemma_strict_chain(s, i, j - 1);
    }
    assert(s[j - 1].strike < s[j].strike);
}

} // verus!
