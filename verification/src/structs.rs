//! The data model: contracts of an options chain, scan requests, and the
//! records a scan emits. Money is held in integer cents; quantities that the
//! metric formulas divide are held as exact [`Ratio`] values.

use vstd::prelude::*;

verus! {

/// Largest strike or quoted price, in cents, that a scan accepts
/// (one billion dollars). The bound keeps every product formed by the
/// metric formulas comfortably inside `i128`.
pub const MAX_CENTS: i64 = 100_000_000_000;

/// The bid side of a quote: price and posted volume, in cents.
#[derive(Clone, Copy, Debug, PartialEq, Eq, Structural)]
pub struct Bid {
    pub price: i64,
    pub volume: i64,
}

/// The ask side of a quote: price and posted volume, in cents.
#[derive(Clone, Copy, Debug, PartialEq, Eq, Structural)]
pub struct Ask {
    pub price: i64,
    pub volume: i64,
}

/// One contract of the chain: a strike with its two-sided quote.
#[derive(Clone, Copy, Debug, PartialEq, Eq, Structural)]
pub struct Item {
    pub strike: i64,
    pub ask_info: Ask,
    pub bid_info: Bid,
}

/// An exact rational number `num / den`.
///
/// The metric formulas divide freely, and a degenerate position may divide
/// by zero; such a quotient is kept as a pair with `den == 0` (the analogue
/// of an infinite or undefined reading) rather than being rejected.
/// Ratios are recorded exactly as the formulas build them, without
/// cancellation, so a degenerate numerator or denominator stays visible.
#[derive(Clone, Copy, Debug, PartialEq, Eq, Structural)]
pub struct Ratio {
    pub num: i128,
    pub den: i128,
}

/// Chain positions of the two wings of a butterfly match.
#[derive(Clone, Copy, Debug, PartialEq, Eq, Structural)]
pub struct Context {
    pub left: usize,
    pub right: usize,
}

/// Chain positions of the four legs of a condor match.
#[derive(Clone, Copy, Debug, PartialEq, Eq, Structural)]
pub struct CondorContext {
    pub left: usize,
    pub ileft: usize,
    pub iright: usize,
    pub right: usize,
}

/// The spatial profile of a butterfly position, in cents of underlying
/// price: the two wings bound the loss region, the breakevens bound the
/// profit region around the body strike.
#[derive(Clone, Copy, Debug, PartialEq, Eq, Structural)]
pub struct Space {
    pub max_loss_lower: i64,
    pub breakeven_lower: i64,
    pub target: i64,
    pub breakeven_upper: i64,
    pub max_loss_upper: i64,
}

/// Quantities that scale with the position size.
#[derive(Clone, Copy, Debug, PartialEq, Eq, Structural)]
pub struct VariableOnSize {
    pub cost_per_bundle: i64,
    pub max_gain: Ratio,
    pub gain_per_cost: Ratio,
}

/// Fixed shape ratios of the position, independent of its size.
#[derive(Clone, Copy, Debug, PartialEq, Eq, Structural)]
pub struct Fixed {
    pub breakeven_range: i64,
    pub range_to_target: Ratio,
    pub slope: Ratio,
}

/// One butterfly match with all of its derived metrics.
#[derive(Clone, Copy, Debug, PartialEq, Eq, Structural)]
pub struct Stats {
    pub context: Context,
    pub space: Space,
    pub variable_on_size: VariableOnSize,
    pub fixed: Fixed,
    pub metric: Ratio,
    pub new_metric: Ratio,
    pub shares: i64,
    pub max: Ratio,
}

/// One condor match: index geometry only, no pricing metrics.
#[derive(Clone, Copy, Debug, PartialEq, Eq, Structural)]
pub struct CondorStats {
    pub context: CondorContext,
}

/// One entry of a caller's chain: a strike and its single quoted price,
/// both in cents.
#[derive(Clone, Copy, Debug, PartialEq, Eq, Structural)]
pub struct RequestItem {
    pub strike: i64,
    pub price: i64,
}

/// A caller's request: a symbol, a target price in cents, and the chain.
#[derive(Clone, Debug, PartialEq, Eq)]
pub struct RequestBody {
    pub symbol: String,
    pub target: i64,
    pub chain: Vec<RequestItem>,
}

/// The butterfly response envelope: the request echoed back, with every
/// match found.
#[derive(Clone, Debug, PartialEq, Eq)]
pub struct Output {
    pub input: RequestBody,
    pub output: Vec<Stats>,
}

/// The condor response envelope: the request echoed back, with every
/// match found.
#[derive(Clone, Debug, PartialEq, Eq)]
pub struct CondorOutput {
    pub input: RequestBody,
    pub output: Vec<CondorStats>,
}

/// Failure of the locator: the target price has no contract strictly
/// inside the chain's strike range to anchor a scan on.
#[derive(Clone, Copy, Debug, PartialEq, Eq, Structural)]
pub struct TargetNotInChain;

/// Why a scan refused a request.
#[derive(Clone, Copy, Debug, PartialEq, Eq, Structural)]
pub enum ScanError {
    /// The target could not be located strictly inside the strike range
    /// (at or before the first strike, or at or beyond the last).
    TargetNotInChain,
    /// The chain itself is unusable: two contracts share a strike, or the
    /// scan's pointer walk ran off an end of the chain.
    InvalidChain,
}

/// A contract whose strike, prices and volumes are what a scan relies on:
/// all within the accepted bound, volumes zero as normalization sets them.
pub open spec fn item_bounded(it: Item) -> bool {
    &&& 0 <= it.strike <= MAX_CENTS
    &&& 0 <= it.ask_info.price <= MAX_CENTS
    &&& 0 <= it.bid_info.price <= MAX_CENTS
    &&& it.ask_info.volume == 0
    &&& it.bid_info.volume == 0
}

/// Every contract of the chain is within bounds.
pub open spec fn chain_bounded(s: Seq<Item>) -> bool {
    forall|i: int| 0 <= i < s.len() ==> item_bounded(#[trigger] s[i])
}

/// A request entry whose strike and price are within the accepted bound.
pub open spec fn request_item_bounded(it: RequestItem) -> bool {
    &&& 0 <= it.strike <= MAX_CENTS
    &&& 0 <= it.price <= MAX_CENTS
}

/// Every entry of a request chain is within bounds.
pub open spec fn request_chain_bounded(s: Seq<RequestItem>) -> bool {
    forall|i: int| 0 <= i < s.len() ==> request_item_bounded(#[trigger] s[i])
}

/// Strikes never decrease along the chain.
pub open spec fn sorted_by_strike(s: Seq<Item>) -> bool {
    forall|i: int, j: int| 0 <= i < j < s.len() ==> s[i].strike <= s[j].strike
}

/// Strikes strictly increase along the chain: sorted and unique, the
/// invariant every scanner relies on.
pub open spec fn strictly_sorted_by_strike(s: Seq<Item>) -> bool {
    forall|i: int, j: int| 0 <= i < j < s.len() ==> s[i].strike < s[j].strike
}

} // verus!
