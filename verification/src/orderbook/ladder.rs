//! One side of a book: price levels kept in ranking order, best first.
//!
//! Bids rank from the highest price down, asks from the lowest price up.
//! A ladder never holds two levels of the same price, nor a level of zero
//! quantity.

use crate::decimal::Decimal;
use crate::orderbook::{Level, Side};
use crate::parser::PriceLevel;
use vstd::prelude::*;

verus! {

/// Price `a` ranks strictly ahead of price `b` on the given side.
pub open spec fn ahead(side: Side, a: Decimal, b: Decimal) -> bool {
    match side {
        Side::Bid => a.units() > b.units(),
        Side::Ask => a.units() < b.units(),
    }
}

/// Every level ranks strictly ahead of those that follow it.
pub open spec fn ordered(side: Side, s: Seq<Level>) -> bool {
    forall|i: int, j: int|
        #![trigger s[i], s[j]]
        0 <= i < j < s.len() ==> ahead(side, s[i].price, s[j].price)
}

/// No level has a zero quantity.
pub open spec fn populated(s: Seq<Level>) -> bool {
    forall|i: int| 0 <= i < s.len() ==> !(#[trigger] s[i]).quantity.is_zero_value()
}

/// Every level has a positive quantity.
pub open spec fn all_positive(s: Seq<Level>) -> bool {
    forall|i: int| 0 <= i < s.len() ==> (#[trigger] s[i]).quantity.is_positive_value()
}

/// No level asks for a negative quantity.
pub open spec fn none_negative(levels: Seq<PriceLevel>) -> bool {
    forall|i: int| 0 <= i < levels.len() ==> !(#[trigger] levels[i]).quantity.is_negative_value()
}

/// The invariant of one side of a book.
pub open spec fn is_ladder(side: Side, s: Seq<Level>) -> bool {
    ordered(side, s) && populated(s)
}

/// The number of leading levels that rank strictly ahead of `price`: the
/// index at which `price` stands, or would stand, in an ordered ladder.
pub open spec fn rank(side: Side, s: Seq<Level>, price: Decimal) -> int
    decreases s.len(),
{
    if s.len() > 0 && ahead(side, s[0].price, price) {
        1 + rank(side, s.drop_first(), price)
    } else {
        0
    }
}

/// The ladder after one level update: a zero quantity removes the level of
/// that price if there is one; any other quantity replaces the quantity of
/// the level of that price, which keeps the price it was first given with,
/// or enters a new level at its rank.
pub open spec fn put(side: Side, s: Seq<Level>, price: Decimal, quantity: Decimal) -> Seq<Level> {
    let k = rank(side, s, price);
    if k < s.len() && s[k].price.same_value(price) {
        if quantity.is_zero_value() {
            s.remove(k)
        } else {
            s.update(k, Level { price: s[k].price, quantity })
        }
    } else if quantity.is_zero_value() {
        s
    } else {
        s.insert(k, Level { price, quantity })
    }
}

/// The ladder after the updates of a diff, taken in order.
pub open spec fn apply_all(side: Side, s: Seq<Level>, levels: Seq<PriceLevel>) -> Seq<Level>
    decreases levels.len(),
{
    if levels.len() == 0 {
        s
    } else {
        let level = levels.last();
        put(side, apply_all(side, s, levels.drop_last()), level.price, level.quantity)
    }
}

/// The ladder after the levels of a snapshot, taken in order: only levels
/// of positive quantity enter.
pub open spec fn load_all(side: Side, s: Seq<Level>, levels: Seq<PriceLevel>) -> Seq<Level>
    decreases levels.len(),
{
    if levels.len() == 0 {
        s
    } else {
        let level = levels.last();
        let before = load_all(side, s, levels.drop_last());
        if level.quantity.is_positive_value() {
            put(side, before, level.price, level.quantity)
        } else {
            before
        }
    }
}

/// The best `max_depth` levels of a ladder: eviction starts from the level
/// that ranks last.
pub open spec fn trim(s: Seq<Level>, max_depth: nat) -> Seq<Level> {
    if s.len() <= max_depth {
        s
    } else {
        s.take(max_depth as int)
    }
}

/// `rank` is the end of the leading run of levels ahead of `price`.
pub proof fn lemma_rank_bounds(side: Side, s: Seq<Level>, price: Decimal)
    ensures
        0 <= rank(side, s, price) <= s.len(),
        forall|j: int| 0 <= j < rank(side, s, price) ==> ahead(side, (#[trigger] s[j]).price, price),
        rank(side, s, price) < s.len() ==> !ahead(side, s[rank(side, s, price)].price, price),
    decreases s.len(),
{
    if s.len() > 0 && ahead(side, s[0].price, price) {
        let rest = s.drop_first();
        lemma_rank_bounds(side, rest, price);
        let k = rank(side, rest, price);
        assert forall|j: int| 0 <= j < k + 1 implies ahead(side, (#[trigger] s[j]).price, price) by {
            if j > 0 {
                assert(s[j] == rest[j - 1]);
            }
        }
        if k + 1 < s.len() {
            assert(s[k + 1] == rest[k]);
        }
    }
}

/// An index up to which every level is ahead of `price`, and at which the
/// level, if any, is not, is the rank of `price`.
pub proof fn lemma_rank_is(side: Side, s: Seq<Level>, price: Decimal, k: int)
    requires
        0 <= k <= s.len(),
        forall|j: int| 0 <= j < k ==> ahead(side, (#[trigger] s[j]).price, price),
        k < s.len() ==> !ahead(side, s[k].price, price),
    ensures
        rank(side, s, price) == k,
    decreases s.len(),
{
    if k > 0 {
        let rest = s.drop_first();
        assert(ahead(side, s[0].price, price));
        assert forall|j: int| 0 <= j < k - 1 implies ahead(side, (#[trigger] rest[j]).price, price) by {
            assert(rest[j] == s[j + 1]);
        }
        if k - 1 < rest.len() {
            assert(rest[k - 1] == s[k]);
        }
        lemma_rank_is(side, rest, price, k - 1);
    }
}

/// A level update keeps a ladder a ladder.
pub proof fn lemma_put_keeps_ladder(side: Side, s: Seq<Level>, price: Decimal, quantity: Decimal)
    requires
        is_ladder(side, s),
    ensures
        is_ladder(side, put(side, s, price, quantity)),
{
    lemma_rank_bounds(side, s, price);
    let k = rank(side, s, price);
    let t = put(side, s, price, quantity);
    if k < s.len() && s[k].price.same_value(price) {
        if quantity.is_zero_value() {
            assert forall|i: int, j: int| 0 <= i < j < t.len() implies ahead(
                side,
                (#[trigger] t[i]).price,
                (#[trigger] t[j]).price,
            ) by {
                let i0 = if i < k { i } else { i + 1 };
                let j0 = if j < k { j } else { j + 1 };
                assert(t[i] == s[i0] && t[j] == s[j0]);
            }
            assert forall|i: int| 0 <= i < t.len() implies !(#[trigger] t[i]).quantity.is_zero_value() by {
                let i0 = if i < k { i } else { i + 1 };
                assert(t[i] == s[i0]);
            }
        } else {
            assert forall|i: int, j: int| 0 <= i < j < t.len() implies ahead(
                side,
                (#[trigger] t[i]).price,
                (#[trigger] t[j]).price,
            ) by {
                assert(t[i].price == s[i].price && t[j].price == s[j].price);
            }
            assert forall|i: int| 0 <= i < t.len() implies !(#[trigger] t[i]).quantity.is_zero_value() by {
                if i != k {
                    assert(t[i] == s[i]);
                }
            }
        }
    } else if !quantity.is_zero_value() {
        assert forall|i: int, j: int| 0 <= i < j < t.len() implies ahead(
            side,
            (#[trigger] t[i]).price,
            (#[trigger] t[j]).price,
        ) by {
            let i0 = if i < k { i } else { i - 1 };
            let j0 = if j < k { j } else { j - 1 };
            if i != k {
                assert(t[i] == s[i0]);
            }
            if j != k {
                assert(t[j] == s[j0]);
            }
            if i == k {
                assert(k <= j0 < s.len());
                assert(k < j0 ==> ahead(side, s[k].price, s[j0].price));
            }
        }
        assert forall|i: int| 0 <= i < t.len() implies !(#[trigger] t[i]).quantity.is_zero_value() by {
            let i0 = if i < k { i } else { i - 1 };
            if i != k {
                assert(t[i] == s[i0]);
            }
        }
    }
}

/// What a level update does to the levels of a ladder, whatever their
/// order: levels of other prices stay as they are; of the updated price no
/// level is left after a zero quantity, and exactly the one with the new
/// quantity after any other.
pub proof fn lemma_put_contents(side: Side, s: Seq<Level>, price: Decimal, quantity: Decimal)
    requires
        is_ladder(side, s),
    ensures
        forall|level: Level|
            #[trigger] s.contains(level) && !level.price.same_value(price) ==> put(
                side,
                s,
                price,
                quantity,
            ).contains(level),
        forall|level: Level|
            #[trigger] put(side, s, price, quantity).contains(level) ==> if level.price.same_value(
                price,
            ) {
                !quantity.is_zero_value() && level.quantity == quantity
            } else {
                s.contains(level)
            },
        !quantity.is_zero_value() ==> exists|level: Level|
            #[trigger] put(side, s, price, quantity).contains(level) && level.price.same_value(
                price,
            ) && level.quantity == quantity,
{
    lemma_rank_bounds(side, s, price);
    let k = rank(side, s, price);
    let t = put(side, s, price, quantity);
    let found = k < s.len() && s[k].price.same_value(price);
    // where each level of `s` but the one at `k` goes, and where each level of `t` comes from
    assert forall|level: Level| #[trigger]
        s.contains(level) && !level.price.same_value(price) implies t.contains(level) by {
        let i = choose|i: int| 0 <= i < s.len() && s[i] == level;
        if found {
            if quantity.is_zero_value() {
                let j = if i < k { i } else { i - 1 };
                assert(t[j] == s[i]);
            } else {
                assert(t[i] == s[i]);
            }
        } else if !quantity.is_zero_value() {
            let j = if i < k { i } else { i + 1 };
            assert(t[j] == s[i]);
        }
    }
    assert forall|level: Level| #[trigger] t.contains(level) implies if level.price.same_value(price) {
        !quantity.is_zero_value() && level.quantity == quantity
    } else {
        s.contains(level)
    } by {
        let j = choose|j: int| 0 <= j < t.len() && t[j] == level;
        if found {
            if quantity.is_zero_value() {
                let i = if j < k { j } else { j + 1 };
                assert(t[j] == s[i]);
                assert(i != k);
                assert(!s[i].price.same_value(s[k].price)) by {
                    if i < k {
                        assert(ahead(side, s[i].price, s[k].price));
                    } else {
                        assert(ahead(side, s[k].price, s[i].price));
                    }
                }
            } else if j != k {
                assert(t[j] == s[j]);
                assert(!s[j].price.same_value(s[k].price)) by {
                    if j < k {
                        assert(ahead(side, s[j].price, s[k].price));
                    } else {
                        assert(ahead(side, s[k].price, s[j].price));
                    }
                }
            }
        } else if !quantity.is_zero_value() {
            if j != k {
                let i = if j < k { j } else { j - 1 };
                assert(t[j] == s[i]);
                assert(!s[i].price.same_value(price)) by {
                    if i >= k && k < s.len() {
                        assert(i > k ==> ahead(side, s[k].price, s[i].price));
                    }
                }
            }
        } else {
            assert(!level.price.same_value(price)) by {
                if j >= k && k < s.len() {
                    assert(j > k ==> ahead(side, s[k].price, s[j].price));
                }
            }
        }
    }
    if !quantity.is_zero_value() {
        assert(t[k].price.same_value(price) && t[k].quantity == quantity);
        assert(t.contains(t[k]));
    }
}

/// A zero quantity for a price that no level has leaves the ladder as it
/// is.
pub proof fn lemma_remove_absent(side: Side, s: Seq<Level>, price: Decimal, quantity: Decimal)
    requires
        quantity.is_zero_value(),
        forall|i: int| 0 <= i < s.len() ==> !(#[trigger] s[i]).price.same_value(price),
    ensures
        put(side, s, price, quantity) == s,
{
    lemma_rank_bounds(side, s, price);
}

/// The updates of a diff keep a ladder a ladder.
pub proof fn lemma_apply_keeps_ladder(side: Side, s: Seq<Level>, levels: Seq<PriceLevel>)
    requires
        is_ladder(side, s),
    ensures
        is_ladder(side, apply_all(side, s, levels)),
    decreases levels.len(),
{
    if levels.len() > 0 {
        lemma_apply_keeps_ladder(side, s, levels.drop_last());
        lemma_put_keeps_ladder(
            side,
            apply_all(side, s, levels.drop_last()),
            levels.last().price,
            levels.last().quantity,
        );
    }
}

/// The levels of a snapshot make a ladder.
pub proof fn lemma_load_keeps_ladder(side: Side, s: Seq<Level>, levels: Seq<PriceLevel>)
    requires
        is_ladder(side, s),
    ensures
        is_ladder(side, load_all(side, s, levels)),
    decreases levels.len(),
{
    if levels.len() > 0 {
        lemma_load_keeps_ladder(side, s, levels.drop_last());
        lemma_put_keeps_ladder(
            side,
            load_all(side, s, levels.drop_last()),
            levels.last().price,
            levels.last().quantity,
        );
    }
}

/// A level update with a quantity that is not negative keeps every
/// quantity positive.
pub proof fn lemma_put_keeps_positive(side: Side, s: Seq<Level>, price: Decimal, quantity: Decimal)
    requires
        all_positive(s),
        !quantity.is_negative_value(),
    ensures
        all_positive(put(side, s, price, quantity)),
{
    lemma_rank_bounds(side, s, price);
    let k = rank(side, s, price);
    let t = put(side, s, price, quantity);
    assert forall|i: int| 0 <= i < t.len() implies (#[trigger] t[i]).quantity.is_positive_value() by {
        if k < s.len() && s[k].price.same_value(price) {
            if quantity.is_zero_value() {
                let i0 = if i < k { i } else { i + 1 };
                assert(t[i] == s[i0]);
            } else if i != k {
                assert(t[i] == s[i]);
            }
        } else if !quantity.is_zero_value() {
            let i0 = if i < k { i } else { i - 1 };
            if i != k {
                assert(t[i] == s[i0]);
            }
        }
    }
}

/// The updates of a diff that asks for no negative quantity keep every
/// quantity positive.
pub proof fn lemma_apply_keeps_positive(side: Side, s: Seq<Level>, levels: Seq<PriceLevel>)
    requires
        all_positive(s),
        none_negative(levels),
    ensures
        all_positive(apply_all(side, s, levels)),
    decreases levels.len(),
{
    if levels.len() > 0 {
        let before = levels.drop_last();
        assert forall|i: int| 0 <= i < before.len() implies !(#[trigger] before[i]).quantity.is_negative_value() by {
            assert(before[i] == levels[i]);
        }
        lemma_apply_keeps_positive(side, s, before);
        lemma_put_keeps_positive(
            side,
            apply_all(side, s, before),
            levels.last().price,
            levels.last().quantity,
        );
    }
}

/// The levels of a snapshot, whatever they are, leave every quantity
/// positive.
pub proof fn lemma_load_keeps_positive(side: Side, s: Seq<Level>, levels: Seq<PriceLevel>)
    requires
        all_positive(s),
    ensures
        all_positive(load_all(side, s, levels)),
    decreases levels.len(),
{
    if levels.len() > 0 {
        lemma_load_keeps_positive(side, s, levels.drop_last());
        if levels.last().quantity.is_positive_value() {
            lemma_put_keeps_positive(
                side,
                load_all(side, s, levels.drop_last()),
                levels.last().price,
                levels.last().quantity,
            );
        }
    }
}

/// Trimming keeps a ladder a ladder, of at most `max_depth` levels, and
/// keeps its best level wherever one is kept at all.
pub proof fn lemma_trim(side: Side, s: Seq<Level>, max_depth: nat)
    requires
        is_ladder(side, s),
    ensures
        is_ladder(side, trim(s, max_depth)),
        trim(s, max_depth).len() <= max_depth,
        trim(s, max_depth).len() > 0 ==> trim(s, max_depth)[0] == s[0],
{
}

/// Every level that a snapshot leaves in a ladder carries the price of a
/// level that was in the ladder before or of a snapshot level of positive
/// quantity.
pub proof fn lemma_load_prices(side: Side, s: Seq<Level>, levels: Seq<PriceLevel>, i: int)
    requires
        0 <= i < load_all(side, s, levels).len(),
    ensures
        ({
            let price = load_all(side, s, levels)[i].price;
            ||| exists|j: int| 0 <= j < s.len() && (#[trigger] s[j]).price == price
            ||| exists|j: int|
                0 <= j < levels.len() && (#[trigger] levels[j]).quantity.is_positive_value()
                    && levels[j].price == price
        }),
    decreases levels.len(),
{
    if levels.len() > 0 {
        let level = levels.last();
        let before = load_all(side, s, levels.drop_last());
        let after = load_all(side, s, levels);
        let price = after[i].price;
        if level.quantity.is_positive_value() {
            lemma_rank_bounds(side, before, level.price);
            let k = rank(side, before, level.price);
            let found = k < before.len() && before[k].price.same_value(level.price);
            // the index in `before` that `after[i]` stems from, if it is not the new level
            let origin = if found || i < k { i } else { i - 1 };
            if !found && i == k {
                assert(levels[levels.len() - 1].price == price);
            } else {
                assert(before[origin].price == price);
                lemma_load_prices(side, s, levels.drop_last(), origin);
                lemma_prefix_witness(s, levels, price);
            }
        } else {
            lemma_load_prices(side, s, levels.drop_last(), i);
            lemma_prefix_witness(s, levels, price);
        }
    } else {
        assert(s[i].price == load_all(side, s, levels)[i].price);
    }
}

/// A price found among all but the last snapshot level is found among all
/// of them.
proof fn lemma_prefix_witness(s: Seq<Level>, levels: Seq<PriceLevel>, price: Decimal)
    requires
        levels.len() > 0,
        ({
            ||| exists|j: int| 0 <= j < s.len() && (#[trigger] s[j]).price == price
            ||| exists|j: int|
                0 <= j < levels.drop_last().len() && (#[trigger] levels.drop_last()[j]).quantity.is_positive_value()
                    && levels.drop_last()[j].price == price
        }),
    ensures
        ({
            ||| exists|j: int| 0 <= j < s.len() && (#[trigger] s[j]).price == price
            ||| exists|j: int|
                0 <= j < levels.len() && (#[trigger] levels[j]).quantity.is_positive_value()
                    && levels[j].price == price
        }),
{
    if !(exists|j: int| 0 <= j < s.len() && (#[trigger] s[j]).price == price) {
        let j = choose|j: int|
            0 <= j < levels.drop_last().len() && (#[trigger] levels.drop_last()[j]).quantity.is_positive_value()
                && levels.drop_last()[j].price == price;
        assert(levels[j] == levels.drop_last()[j]);
    }
}

/// Whether price `a` ranks strictly ahead of price `b` on the given side.
pub fn is_ahead(side: Side, a: Decimal, b: Decimal) -> (r: bool)
    ensures
        r == ahead(side, a, b),
{
    match side {
        Side::Bid => b.lt(&a),
        Side::Ask => a.lt(&b),
    }
}

/// The index at which `price` stands, or would stand, in the ladder, found
/// by halving the range in which it can still lie.
pub fn position(side: Side, levels: &Vec<Level>, price: Decimal) -> (k: usize)
    requires
        ordered(side, levels@),
    ensures
        k == rank(side, levels@, price),
        k <= levels.len(),
{
    let mut low: usize = 0;
    let mut high: usize = levels.len();
    while low < high
        invariant
            low <= high <= levels.len(),
            ordered(side, levels@),
            forall|j: int| 0 <= j < low ==> ahead(side, (#[trigger] levels@[j]).price, price),
            forall|j: int|
                high <= j < levels.len() ==> !ahead(side, (#[trigger] levels@[j]).price, price),
        decreases high - low,
    {
        let middle = low + (high - low) / 2;
        if is_ahead(side, levels[middle].price, price) {
            assert forall|j: int| 0 <= j < middle + 1 implies ahead(
                side,
                (#[trigger] levels@[j]).price,
                price,
            ) by {
                if j < middle {
                    assert(ahead(side, levels@[j].price, levels@[middle as int].price));
                }
            }
            low = middle + 1;
        } else {
            assert forall|j: int| middle <= j < levels.len() implies !ahead(
                side,
                (#[trigger] levels@[j]).price,
                price,
            ) by {
                if middle < j {
                    assert(ahead(side, levels@[middle as int].price, levels@[j].price));
                }
            }
            high = middle;
        }
    }
    proof {
        lemma_rank_is(side, levels@, price, low as int);
    }
    low
}

/// Applies one level update to a ladder.
pub fn put_level(side: Side, levels: &mut Vec<Level>, price: Decimal, quantity: Decimal)
    requires
        is_ladder(side, old(levels)@),
    ensures
        final(levels)@ == put(side, old(levels)@, price, quantity),
        is_ladder(side, final(levels)@),
{
    proof {
        lemma_put_keeps_ladder(side, levels@, price, quantity);
        lemma_rank_bounds(side, levels@, price);
    }
    let k = position(side, levels, price);
    let found = k < levels.len() && !is_ahead(side, price, levels[k].price);
    if found {
        if quantity.is_zero() {
            levels.remove(k);
        } else {
            let kept = levels[k].price;
            levels.set(k, Level { price: kept, quantity });
        }
    } else if !quantity.is_zero() {
        levels.insert(k, Level { price, quantity });
    }
}

/// Cuts a ladder down to its best `max_depth` levels.
pub fn trim_levels(levels: &mut Vec<Level>, max_depth: usize)
    ensures
        final(levels)@ == trim(old(levels)@, max_depth as nat),
        final(levels)@.len() <= max_depth,
{
    if levels.len() > max_depth {
        levels.truncate(max_depth);
    }
}

/// Applies the updates of a diff to a ladder in order, then trims it.
pub fn apply_levels(side: Side, ladder: &mut Vec<Level>, levels: &Vec<PriceLevel>, max_depth: usize)
    requires
        is_ladder(side, old(ladder)@),
    ensures
        final(ladder)@ == trim(apply_all(side, old(ladder)@, levels@), max_depth as nat),
        is_ladder(side, final(ladder)@),
        final(ladder)@.len() <= max_depth,
{
    let ghost start = ladder@;
    let mut i: usize = 0;
    while i < levels.len()
        invariant
            i <= levels.len(),
            is_ladder(side, ladder@),
            ladder@ == apply_all(side, start, levels@.take(i as int)),
        decreases levels.len() - i,
    {
        proof {
            let next = levels@.take(i + 1);
            assert(next.drop_last() == levels@.take(i as int));
            assert(next.last() == levels@[i as int]);
        }
        put_level(side, ladder, levels[i].price, levels[i].quantity);
        i += 1;
    }
    assert(levels@.take(i as int) == levels@);
    trim_levels(ladder, max_depth);
}

/// Replaces a ladder by the levels of a snapshot, then trims it.
pub fn load_levels(side: Side, ladder: &mut Vec<Level>, levels: &Vec<PriceLevel>, max_depth: usize)
    ensures
        final(ladder)@ == trim(load_all(side, Seq::empty(), levels@), max_depth as nat),
        is_ladder(side, final(ladder)@),
        final(ladder)@.len() <= max_depth,
{
    ladder.clear();
    let mut i: usize = 0;
    while i < levels.len()
        invariant
            i <= levels.len(),
            is_ladder(side, ladder@),
            ladder@ == load_all(side, Seq::empty(), levels@.take(i as int)),
        decreases levels.len() - i,
    {
        proof {
            let next = levels@.take(i + 1);
            assert(next.drop_last() == levels@.take(i as int));
            assert(next.last() == levels@[i as int]);
        }
        if levels[i].quantity.is_positive() {
            put_level(side, ladder, levels[i].price, levels[i].quantity);
        }
        i += 1;
    }
    assert(levels@.take(i as int) == levels@);
    trim_levels(ladder, max_depth);
}

} // verus!
