//! Order book metrics calculation
//!
//! Formulas are stated over the decimal operations named in
//! [`crate::decimal`]. A step of a formula may have no representable
//! result; each formula therefore comes with a predicate that says whether
//! all its steps have one. The functions that compute a metric demand it;
//! their `checked_` counterparts find out and report an error instead.

use crate::decimal::{difference_of, power_of, product_of, quotient_of, sum_of, Decimal};
use crate::error::{ErrorView, MarketDataError};
use crate::orderbook::Level;
use vstd::string::StringExecFns;
use vstd::prelude::*;

verus! {

/// The sum of the quantities of the levels, added one by one from zero in
/// ladder order.
pub open spec fn total_quantity(s: Seq<Level>) -> Option<Decimal>
    decreases s.len(),
{
    if s.len() == 0 {
        Some(Decimal::whole(0))
    } else {
        match total_quantity(s.drop_last()) {
            Some(sum) => sum_of(sum, s.last().quantity),
            None => None,
        }
    }
}

/// The sum of `quantity * decay^i` over the levels, `i` counting from 0 at
/// the best level, added one by one from zero in ladder order.
pub open spec fn weighted_quantity(s: Seq<Level>, decay: Decimal) -> Option<Decimal>
    decreases s.len(),
{
    if s.len() == 0 {
        Some(Decimal::whole(0))
    } else {
        match (weighted_quantity(s.drop_last(), decay), power_of(decay, (s.len() - 1) as u64)) {
            (Some(sum), Some(weight)) => match product_of(s.last().quantity, weight) {
                Some(term) => sum_of(sum, term),
                None => None,
            },
            _ => None,
        }
    }
}

/// `(bid + ask) / 2`.
pub open spec fn mid_of(bid: Decimal, ask: Decimal) -> Option<Decimal> {
    match sum_of(bid, ask) {
        Some(sum) => quotient_of(sum, Decimal::whole(2)),
        None => None,
    }
}

/// `(ask - bid) / mid * 10000`, defined for a positive mid.
pub open spec fn spread_of(bid: Decimal, ask: Decimal) -> Option<Decimal> {
    match (mid_of(bid, ask), difference_of(ask, bid)) {
        (Some(mid), Some(width)) => if mid.is_positive_value() {
            match quotient_of(width, mid) {
                Some(ratio) => product_of(ratio, Decimal::whole(10000)),
                None => None,
            }
        } else {
            None
        },
        _ => None,
    }
}

/// Whether every step of [`spread_of`] has a result: the mid has one, and
/// so has the spread where the mid is positive.
pub open spec fn spread_computable(bid: Decimal, ask: Decimal) -> bool {
    match mid_of(bid, ask) {
        Some(mid) => mid.is_positive_value() ==> spread_of(bid, ask) is Some,
        None => false,
    }
}

/// `bid + ask`: the total that an imbalance is taken of.
pub open spec fn volume_of(bid: Option<Decimal>, ask: Option<Decimal>) -> Option<Decimal> {
    match (bid, ask) {
        (Some(b), Some(a)) => sum_of(b, a),
        _ => None,
    }
}

/// Whether `bid + ask` is positive.
pub open spec fn volume_positive(bid: Option<Decimal>, ask: Option<Decimal>) -> bool {
    volume_of(bid, ask) matches Some(total) && total.is_positive_value()
}

/// `(bid - ask) / (bid + ask)`, defined for a positive `bid + ask`.
pub open spec fn balance_of(bid: Option<Decimal>, ask: Option<Decimal>) -> Option<Decimal> {
    match (bid, ask) {
        (Some(b), Some(a)) => match (sum_of(b, a), difference_of(b, a)) {
            (Some(total), Some(excess)) => if total.is_positive_value() {
                quotient_of(excess, total)
            } else {
                None
            },
            _ => None,
        },
        _ => None,
    }
}

/// Whether every step of [`balance_of`] has a result: both volumes and
/// their sum have one, and so has the balance where the sum is positive.
pub open spec fn balance_computable(bid: Option<Decimal>, ask: Option<Decimal>) -> bool {
    match (bid, ask) {
        (Some(b), Some(a)) => match sum_of(b, a) {
            Some(total) => total.is_positive_value() ==> balance_of(bid, ask) is Some,
            None => false,
        },
        _ => false,
    }
}

/// The error for a result that cannot be represented.
pub open spec fn unrepresentable_error() -> ErrorView {
    ErrorView::OrderBookError("result cannot be represented"@)
}

/// Whether `result` reports `value` where it is `representable`, and the
/// error for a result that cannot be represented where it is not.
pub open spec fn reports<T>(result: Result<T, MarketDataError>, representable: bool, value: T) -> bool {
    if representable {
        result == Ok::<T, MarketDataError>(value)
    } else {
        result matches Err(e) && e@ == unrepresentable_error()
    }
}

/// The error for a result that cannot be represented.
pub fn unrepresentable() -> (e: MarketDataError)
    ensures
        e@ == unrepresentable_error(),
{
    MarketDataError::OrderBookError(String::from_str("result cannot be represented"))
}

/// The leading `n` levels of a ladder, or all of it where it is shorter.
pub open spec fn top(s: Seq<Level>, n: nat) -> Seq<Level> {
    if s.len() <= n {
        s
    } else {
        s.take(n as int)
    }
}

/// Computed metrics for an order book
#[derive(Debug, Clone, Copy)]
pub struct OrderBookMetrics {
    /// Mid price (average of best bid and ask)
    pub mid_price: Option<Decimal>,
    /// Spread in basis points
    pub spread_bps: Option<Decimal>,
    /// Simple imbalance: (bid_vol - ask_vol) / (bid_vol + ask_vol)
    pub imbalance: Option<Decimal>,
    /// Weighted imbalance (exponential decay with distance from mid)
    pub weighted_imbalance: Option<Decimal>,
    /// Total bid depth (volume)
    pub bid_depth: Decimal,
    /// Total ask depth (volume)
    pub ask_depth: Decimal,
    /// Number of bid levels
    pub bid_levels: usize,
    /// Number of ask levels
    pub ask_levels: usize,
}

impl Default for OrderBookMetrics {
    fn default() -> (r: OrderBookMetrics)
        ensures
            r == (OrderBookMetrics {
                mid_price: None,
                spread_bps: None,
                imbalance: None,
                weighted_imbalance: None,
                bid_depth: Decimal::whole(0),
                ask_depth: Decimal::whole(0),
                bid_levels: 0,
                ask_levels: 0,
            }),
    {
        OrderBookMetrics {
            mid_price: None,
            spread_bps: None,
            imbalance: None,
            weighted_imbalance: None,
            bid_depth: Decimal::zero(),
            ask_depth: Decimal::zero(),
            bid_levels: 0,
            ask_levels: 0,
        }
    }
}

impl OrderBookMetrics {
    /// Whether the metrics come from a book with a mid, a spread and levels
    /// on both sides.
    pub open spec fn healthy(self) -> bool {
        &&& self.mid_price is Some
        &&& self.spread_bps is Some
        &&& self.bid_levels > 0
        &&& self.ask_levels > 0
    }

    /// `bid_depth / ask_depth`, defined for a positive `ask_depth`.
    pub open spec fn ratio(self) -> Option<Decimal> {
        if self.ask_depth.is_positive_value() {
            quotient_of(self.bid_depth, self.ask_depth)
        } else {
            None
        }
    }

    /// Whether the ratio, where it is defined, can be represented.
    pub open spec fn ratio_representable(self) -> bool {
        self.ask_depth.is_positive_value() ==> self.ratio() is Some
    }

    /// Check if the order book is healthy (has valid data)
    pub fn is_healthy(&self) -> (r: bool)
        ensures
            r == self.healthy(),
    {
        self.mid_price.is_some() && self.spread_bps.is_some() && self.bid_levels > 0
            && self.ask_levels > 0
    }

    /// Get volume ratio (bid_depth / ask_depth)
    ///
    /// `None` iff the ask depth is not positive. The ratio must be
    /// representable; [`OrderBookMetrics::checked_volume_ratio`] serves
    /// callers that cannot know.
    pub fn volume_ratio(&self) -> (r: Option<Decimal>)
        requires
            self.ratio_representable(),
        ensures
            r == self.ratio(),
            r is None <==> !self.ask_depth.is_positive_value(),
    {
        if self.ask_depth.is_positive() {
            self.bid_depth.checked_div(self.ask_depth)
        } else {
            None
        }
    }

    /// The volume ratio, or an error where it cannot be represented.
    pub fn checked_volume_ratio(&self) -> (r: Result<Option<Decimal>, MarketDataError>)
        ensures
            reports(r, self.ratio_representable(), self.ratio()),
    {
        if !self.ask_depth.is_positive() || self.bid_depth.checked_div(self.ask_depth).is_some() {
            Ok(self.volume_ratio())
        } else {
            Err(unrepresentable())
        }
    }
}

/// Adds up the quantities of the leading `count` levels.
pub fn sum_quantities(levels: &Vec<Level>, count: usize) -> (r: Option<Decimal>)
    ensures
        r == total_quantity(top(levels@, count as nat)),
{
    let n = if count < levels.len() { count } else { levels.len() };
    let mut sum = Decimal::zero();
    let mut i: usize = 0;
    assert(top(levels@, count as nat) == levels@.take(n as int));
    while i < n
        invariant
            i <= n <= levels.len(),
            top(levels@, count as nat) == levels@.take(n as int),
            Some(sum) == total_quantity(levels@.take(i as int)),
        decreases n - i,
    {
        proof {
            let next = levels@.take(i + 1);
            assert(next.drop_last() == levels@.take(i as int));
            assert(next.last() == levels@[i as int]);
        }
        match sum.checked_add(levels[i].quantity) {
            Some(next) => {
                sum = next;
            },
            None => {
                proof {
                    assert(levels@.take(n as int).take(i + 1) == levels@.take(i + 1));
                    lemma_total_undefined(levels@.take(i + 1), levels@.take(n as int));
                }
                return None;
            },
        }
        i += 1;
    }
    Some(sum)
}

/// Adds up `quantity * decay^i` over the leading `count` levels.
pub fn sum_weighted(levels: &Vec<Level>, count: usize, decay: Decimal) -> (r: Option<Decimal>)
    ensures
        r == weighted_quantity(top(levels@, count as nat), decay),
{
    let n = if count < levels.len() { count } else { levels.len() };
    let mut sum = Decimal::zero();
    let mut i: usize = 0;
    assert(top(levels@, count as nat) == levels@.take(n as int));
    while i < n
        invariant
            i <= n <= levels.len(),
            top(levels@, count as nat) == levels@.take(n as int),
            Some(sum) == weighted_quantity(levels@.take(i as int), decay),
        decreases n - i,
    {
        proof {
            let next = levels@.take(i + 1);
            assert(next.drop_last() == levels@.take(i as int));
            assert(next.last() == levels@[i as int]);
        }
        let term = match decay.checked_pow(i as u64) {
            Some(weight) => levels[i].quantity.checked_mul(weight),
            None => None,
        };
        let next = match term {
            Some(t) => sum.checked_add(t),
            None => None,
        };
        match next {
            Some(next) => {
                sum = next;
            },
            None => {
                proof {
                    assert(levels@.take(n as int).take(i + 1) == levels@.take(i + 1));
                    lemma_weighted_undefined(levels@.take(i + 1), levels@.take(n as int), decay);
                }
                return None;
            },
        }
        i += 1;
    }
    Some(sum)
}

/// A total that is undefined on a prefix is undefined on the whole.
pub proof fn lemma_total_undefined(prefix: Seq<Level>, s: Seq<Level>)
    requires
        prefix.len() <= s.len(),
        prefix == s.take(prefix.len() as int),
        total_quantity(prefix) is None,
    ensures
        total_quantity(s) is None,
    decreases s.len(),
{
    if prefix.len() < s.len() {
        assert(s.drop_last().take(prefix.len() as int) == prefix);
        lemma_total_undefined(prefix, s.drop_last());
    } else {
        assert(prefix == s);
    }
}

/// A weighted total that is undefined on a prefix is undefined on the whole.
pub proof fn lemma_weighted_undefined(prefix: Seq<Level>, s: Seq<Level>, decay: Decimal)
    requires
        prefix.len() <= s.len(),
        prefix == s.take(prefix.len() as int),
        weighted_quantity(prefix, decay) is None,
    ensures
        weighted_quantity(s, decay) is None,
    decreases s.len(),
{
    if prefix.len() < s.len() {
        assert(s.drop_last().take(prefix.len() as int) == prefix);
        lemma_weighted_undefined(prefix, s.drop_last(), decay);
    } else {
        assert(prefix == s);
    }
}

} // verus!
