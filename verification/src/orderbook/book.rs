//! Core order book implementation
//!
//! Each side is a ladder of price levels kept in ranking order, so that the
//! best level stands first and trimming cuts from the far end.

use crate::decimal::Decimal;
use crate::orderbook::ladder::{
    all_positive, apply_all, apply_levels, is_ladder, lemma_apply_keeps_ladder,
    lemma_apply_keeps_positive, lemma_load_keeps_ladder, lemma_load_keeps_positive,
    lemma_load_prices, lemma_trim, load_all, load_levels, none_negative, trim,
};
use crate::error::MarketDataError;
use crate::orderbook::metrics::{
    balance_computable, balance_of, mid_of, reports, spread_computable, spread_of,
    sum_quantities, sum_weighted, top, total_quantity, unrepresentable, unrepresentable_error,
    volume_positive, weighted_quantity, OrderBookMetrics,
};
use crate::orderbook::{Level, OrderBookState, Side, StateView};
use crate::parser::{DepthUpdate, OrderBookSnapshot, PriceLevel};
use vstd::prelude::*;

verus! {

/// What an [`OrderBook`] holds.
pub struct BookView {
    pub symbol: Seq<char>,
    /// Bids, highest price first.
    pub bids: Seq<Level>,
    /// Asks, lowest price first.
    pub asks: Seq<Level>,
    pub last_update_id: u64,
    pub initialized: bool,
    pub max_depth: usize,
    pub last_update_time: u64,
}

impl BookView {
    /// The empty, uninitialized book.
    pub open spec fn empty(symbol: Seq<char>, max_depth: usize) -> BookView {
        BookView {
            symbol,
            bids: Seq::empty(),
            asks: Seq::empty(),
            last_update_id: 0,
            initialized: false,
            max_depth,
            last_update_time: 0,
        }
    }

    /// Both sides are ladders of at most `max_depth` levels.
    pub open spec fn well_formed(self) -> bool {
        &&& is_ladder(Side::Bid, self.bids)
        &&& is_ladder(Side::Ask, self.asks)
        &&& self.bids.len() <= self.max_depth
        &&& self.asks.len() <= self.max_depth
    }

    /// The book after a snapshot has been taken in.
    pub open spec fn after_snapshot(
        self,
        last_update_id: u64,
        bids: Seq<PriceLevel>,
        asks: Seq<PriceLevel>,
    ) -> BookView {
        BookView {
            bids: trim(load_all(Side::Bid, Seq::empty(), bids), self.max_depth as nat),
            asks: trim(load_all(Side::Ask, Seq::empty(), asks), self.max_depth as nat),
            last_update_id,
            initialized: true,
            ..self
        }
    }

    /// Whether a diff that ends at `final_update_id` is applied: the book
    /// is initialized and the diff reaches past what the book has seen.
    pub open spec fn accepts(self, final_update_id: u64) -> bool {
        self.initialized && final_update_id > self.last_update_id
    }

    /// The book after an accepted diff.
    pub open spec fn after_update(
        self,
        final_update_id: u64,
        event_time: u64,
        bids: Seq<PriceLevel>,
        asks: Seq<PriceLevel>,
    ) -> BookView {
        BookView {
            bids: trim(apply_all(Side::Bid, self.bids, bids), self.max_depth as nat),
            asks: trim(apply_all(Side::Ask, self.asks, asks), self.max_depth as nat),
            last_update_id: final_update_id,
            last_update_time: event_time,
            ..self
        }
    }

    pub open spec fn best_bid(self) -> Option<Decimal> {
        if self.bids.len() > 0 {
            Some(self.bids[0].price)
        } else {
            None
        }
    }

    pub open spec fn best_ask(self) -> Option<Decimal> {
        if self.asks.len() > 0 {
            Some(self.asks[0].price)
        } else {
            None
        }
    }

    /// `(best_bid + best_ask) / 2`, where both sides have a level.
    pub open spec fn mid_price(self) -> Option<Decimal> {
        match (self.best_bid(), self.best_ask()) {
            (Some(bid), Some(ask)) => mid_of(bid, ask),
            _ => None,
        }
    }

    /// Whether the mid, where both sides have a level, can be represented.
    pub open spec fn mid_representable(self) -> bool {
        match (self.best_bid(), self.best_ask()) {
            (Some(bid), Some(ask)) => mid_of(bid, ask) is Some,
            _ => true,
        }
    }

    /// `(best_ask - best_bid) / mid * 10000`, where both sides have a level
    /// and the mid is positive.
    pub open spec fn spread_bps(self) -> Option<Decimal> {
        match (self.best_bid(), self.best_ask()) {
            (Some(bid), Some(ask)) => spread_of(bid, ask),
            _ => None,
        }
    }

    /// Whether the mid and, where the mid is positive, the spread can be
    /// represented.
    pub open spec fn spread_representable(self) -> bool {
        match (self.best_bid(), self.best_ask()) {
            (Some(bid), Some(ask)) => spread_computable(bid, ask),
            _ => true,
        }
    }

    /// The imbalance of the quantities of the leading `levels` levels of
    /// each side, where they add up to a positive total.
    pub open spec fn imbalance(self, levels: nat) -> Option<Decimal> {
        balance_of(
            total_quantity(top(self.bids, levels)),
            total_quantity(top(self.asks, levels)),
        )
    }

    /// Whether the volumes, their total and, where the total is positive,
    /// the imbalance can be represented.
    pub open spec fn imbalance_representable(self, levels: nat) -> bool {
        balance_computable(
            total_quantity(top(self.bids, levels)),
            total_quantity(top(self.asks, levels)),
        )
    }

    /// The imbalance of the decay-weighted quantities of the leading
    /// `levels` levels of each side, where the mid is defined and the
    /// weighted quantities add up to a positive total.
    pub open spec fn weighted_imbalance(self, levels: nat, decay: Decimal) -> Option<Decimal> {
        if self.mid_price() is Some {
            balance_of(
                weighted_quantity(top(self.bids, levels), decay),
                weighted_quantity(top(self.asks, levels), decay),
            )
        } else {
            None
        }
    }

    /// Whether the mid and, where it is defined, the weighted volumes,
    /// their total and, where the total is positive, the weighted imbalance
    /// can be represented.
    pub open spec fn weighted_imbalance_representable(self, levels: nat, decay: Decimal) -> bool {
        &&& self.mid_representable()
        &&& self.mid_price() is Some ==> balance_computable(
            weighted_quantity(top(self.bids, levels), decay),
            weighted_quantity(top(self.asks, levels), decay),
        )
    }

    /// Whether the total quantity of each side can be represented.
    pub open spec fn depth_representable(self) -> bool {
        total_quantity(self.bids) is Some && total_quantity(self.asks) is Some
    }

    /// Whether everything that is published of the book can be
    /// represented.
    pub open spec fn state_representable(self) -> bool {
        &&& self.mid_representable()
        &&& self.spread_representable()
        &&& self.imbalance_representable(5)
        &&& self.weighted_imbalance_representable(10, Decimal::of(9, 1))
        &&& self.depth_representable()
    }

    /// The metrics published of the book.
    pub open spec fn metrics(self) -> OrderBookMetrics
        recommends
            self.state_representable(),
    {
        OrderBookMetrics {
            mid_price: self.mid_price(),
            spread_bps: self.spread_bps(),
            imbalance: self.imbalance(5),
            weighted_imbalance: self.weighted_imbalance(10, Decimal::of(9, 1)),
            bid_depth: total_quantity(self.bids)->0,
            ask_depth: total_quantity(self.asks)->0,
            bid_levels: self.bids.len() as usize,
            ask_levels: self.asks.len() as usize,
        }
    }

    /// What is published of the book.
    pub open spec fn state(self) -> StateView
        recommends
            self.state_representable(),
    {
        StateView {
            symbol: self.symbol,
            timestamp: self.last_update_time,
            last_update_id: self.last_update_id,
            bids: self.bids,
            asks: self.asks,
            metrics: self.metrics(),
        }
    }
}

/// What can happen to a book: a snapshot is taken in, or a diff arrives.
pub enum BookEvent {
    Snapshot { last_update_id: u64, bids: Seq<PriceLevel>, asks: Seq<PriceLevel> },
    Diff { final_update_id: u64, event_time: u64, bids: Seq<PriceLevel>, asks: Seq<PriceLevel> },
}

impl BookView {
    /// The book after one event: a snapshot is always taken in, a diff is
    /// applied where the book accepts it and skipped where it does not.
    pub open spec fn after(self, event: BookEvent) -> BookView {
        match event {
            BookEvent::Snapshot { last_update_id, bids, asks } => self.after_snapshot(
                last_update_id,
                bids,
                asks,
            ),
            BookEvent::Diff { final_update_id, event_time, bids, asks } => {
                if self.accepts(final_update_id) {
                    self.after_update(final_update_id, event_time, bids, asks)
                } else {
                    self
                }
            },
        }
    }

    /// The book after a sequence of events, taken in order.
    pub open spec fn replay(self, events: Seq<BookEvent>) -> BookView
        decreases events.len(),
    {
        if events.len() == 0 {
            self
        } else {
            self.replay(events.drop_last()).after(events.last())
        }
    }

    /// Whether the event at `index` is a diff that the book, having seen
    /// the events before it, applies.
    pub open spec fn applies(self, events: Seq<BookEvent>, index: int) -> bool {
        events[index] matches BookEvent::Diff { final_update_id, .. } && self.replay(
            events.take(index),
        ).accepts(final_update_id)
    }

    /// Whether no snapshot among the events is older than the book that
    /// takes it in.
    pub open spec fn snapshots_not_older(self, events: Seq<BookEvent>) -> bool {
        forall|k: int|
            0 <= k < events.len() ==> (#[trigger] events[k] matches BookEvent::Snapshot {
                last_update_id,
                ..
            } ==> last_update_id >= self.replay(events.take(k)).last_update_id)
    }

    /// Every level of either side has a positive quantity.
    pub open spec fn quantities_positive(self) -> bool {
        all_positive(self.bids) && all_positive(self.asks)
    }

    /// Right after a snapshot every level has a positive quantity, and a
    /// diff that asks for no negative quantity keeps it so.
    pub proof fn lemma_quantities_positive(self, event: BookEvent)
        requires
            match event {
                BookEvent::Snapshot { .. } => true,
                BookEvent::Diff { bids, asks, .. } => self.quantities_positive() && none_negative(
                    bids,
                ) && none_negative(asks),
            },
        ensures
            self.after(event).quantities_positive(),
    {
        match event {
            BookEvent::Snapshot { last_update_id, bids, asks } => {
                lemma_load_keeps_positive(Side::Bid, Seq::empty(), bids);
                lemma_load_keeps_positive(Side::Ask, Seq::empty(), asks);
            },
            BookEvent::Diff { final_update_id, event_time, bids, asks } => {
                lemma_apply_keeps_positive(Side::Bid, self.bids, bids);
                lemma_apply_keeps_positive(Side::Ask, self.asks, asks);
            },
        }
    }

    /// Every event leaves both sides ladders of at most `max_depth`
    /// levels.
    pub proof fn lemma_after_well_formed(self, event: BookEvent)
        requires
            self.well_formed(),
        ensures
            self.after(event).well_formed(),
    {
        match event {
            BookEvent::Snapshot { last_update_id, bids, asks } => {
                lemma_load_keeps_ladder(Side::Bid, Seq::empty(), bids);
                lemma_load_keeps_ladder(Side::Ask, Seq::empty(), asks);
                lemma_trim(Side::Bid, load_all(Side::Bid, Seq::empty(), bids), self.max_depth as nat);
                lemma_trim(Side::Ask, load_all(Side::Ask, Seq::empty(), asks), self.max_depth as nat);
            },
            BookEvent::Diff { final_update_id, event_time, bids, asks } => {
                lemma_apply_keeps_ladder(Side::Bid, self.bids, bids);
                lemma_apply_keeps_ladder(Side::Ask, self.asks, asks);
                lemma_trim(Side::Bid, apply_all(Side::Bid, self.bids, bids), self.max_depth as nat);
                lemma_trim(Side::Ask, apply_all(Side::Ask, self.asks, asks), self.max_depth as nat);
            },
        }
    }

    /// Whatever snapshots and diffs a book has seen, neither side holds
    /// more than `max_depth` levels, and both are ladders.
    pub proof fn lemma_replay_well_formed(self, events: Seq<BookEvent>)
        requires
            self.well_formed(),
        ensures
            self.replay(events).well_formed(),
            self.replay(events).max_depth == self.max_depth,
            self.replay(events).bids.len() <= self.max_depth,
            self.replay(events).asks.len() <= self.max_depth,
        decreases events.len(),
    {
        if events.len() > 0 {
            self.lemma_replay_well_formed(events.drop_last());
            self.replay(events.drop_last()).lemma_after_well_formed(events.last());
        }
    }

    /// Over any sequence of events in which no snapshot is older than the
    /// book that takes it in, `last_update_id` never decreases.
    pub proof fn lemma_update_id_never_decreases(self, events: Seq<BookEvent>, i: int, j: int)
        requires
            0 <= i <= j <= events.len(),
            self.snapshots_not_older(events),
        ensures
            self.replay(events.take(i)).last_update_id <= self.replay(
                events.take(j),
            ).last_update_id,
        decreases j - i,
    {
        if i < j {
            self.lemma_update_id_never_decreases(events, i, j - 1);
            assert(events.take(j).drop_last() == events.take(j - 1));
            assert(events.take(j).last() == events[j - 1]);
        }
    }

    /// After a sequence of events, `last_update_id` is the
    /// `final_update_id` of the last diff that was applied, provided no
    /// snapshot came after it.
    pub proof fn lemma_update_id_is_last_applied(self, events: Seq<BookEvent>, last: int)
        requires
            0 <= last < events.len(),
            self.applies(events, last),
            forall|k: int|
                last < k < events.len() ==> (#[trigger] events[k]) is Diff && !self.applies(
                    events,
                    k,
                ),
        ensures
            events[last] matches BookEvent::Diff { final_update_id, .. }
                && self.replay(events).last_update_id == final_update_id,
        decreases events.len() - last,
    {
        assert(events.take(events.len() as int) == events);
        if last == events.len() - 1 {
            assert(events.drop_last() == events.take(last));
        } else {
            let shorter = events.drop_last();
            assert forall|k: int| last < k < shorter.len() implies (#[trigger] shorter[k]) is Diff
                && !self.applies(shorter, k) by {
                assert(events[k] is Diff && !self.applies(events, k));
                assert(shorter.take(k) == events.take(k));
            }
            assert(shorter.take(last) == events.take(last));
            self.lemma_update_id_is_last_applied(shorter, last);
            let k = events.len() - 1;
            assert(events[k] is Diff && !self.applies(events, k));
            assert(events.take(k) == shorter);
        }
    }

    /// A diff that does not reach past `last_update_id` leaves the book
    /// exactly as it was.
    pub proof fn lemma_stale_diff_changes_nothing(
        self,
        final_update_id: u64,
        event_time: u64,
        bids: Seq<PriceLevel>,
        asks: Seq<PriceLevel>,
    )
        requires
            final_update_id <= self.last_update_id,
        ensures
            self.after(BookEvent::Diff { final_update_id, event_time, bids, asks }) == self,
    {
    }

    /// Taking in the same snapshot twice gives the same book as taking it
    /// in once.
    pub proof fn lemma_snapshot_idempotent(
        self,
        last_update_id: u64,
        bids: Seq<PriceLevel>,
        asks: Seq<PriceLevel>,
    )
        ensures
            self.after_snapshot(last_update_id, bids, asks).after_snapshot(
                last_update_id,
                bids,
                asks,
            ) == self.after_snapshot(last_update_id, bids, asks),
    {
    }

    /// An initialized book accepts the diff that starts right after what it
    /// has seen, provided the diff's range is not empty.
    pub proof fn lemma_next_diff_accepted(self, first_update_id: u64, final_update_id: u64)
        requires
            self.initialized,
            first_update_id == self.last_update_id + 1,
            first_update_id <= final_update_id,
        ensures
            self.accepts(final_update_id),
    {
    }

    /// Right after a snapshot in which no bid of positive quantity is
    /// priced above an ask of positive quantity, the best ask is not below
    /// the best bid.
    pub proof fn lemma_snapshot_not_crossed(
        self,
        last_update_id: u64,
        bids: Seq<PriceLevel>,
        asks: Seq<PriceLevel>,
    )
        requires
            forall|i: int, j: int|
                0 <= i < bids.len() && 0 <= j < asks.len() && (#[trigger] bids[i]).quantity.is_positive_value()
                    && (#[trigger] asks[j]).quantity.is_positive_value() ==> bids[i].price.units()
                    <= asks[j].price.units(),
        ensures
            ({
                let book = self.after_snapshot(last_update_id, bids, asks);
                book.best_bid() matches Some(bid) ==> (book.best_ask() matches Some(ask)
                    ==> ask.units() >= bid.units())
            }),
    {
        let book = self.after_snapshot(last_update_id, bids, asks);
        if book.bids.len() > 0 && book.asks.len() > 0 {
            let loaded_bids = load_all(Side::Bid, Seq::empty(), bids);
            let loaded_asks = load_all(Side::Ask, Seq::empty(), asks);
            assert(book.bids[0] == loaded_bids[0]);
            assert(book.asks[0] == loaded_asks[0]);
            lemma_load_prices(Side::Bid, Seq::empty(), bids, 0);
            lemma_load_prices(Side::Ask, Seq::empty(), asks, 0);
            let i = choose|i: int|
                0 <= i < bids.len() && (#[trigger] bids[i]).quantity.is_positive_value()
                    && bids[i].price == loaded_bids[0].price;
            let j = choose|j: int|
                0 <= j < asks.len() && (#[trigger] asks[j]).quantity.is_positive_value()
                    && asks[j].price == loaded_asks[0].price;
            assert(bids[i].price.units() <= asks[j].price.units());
        }
    }
}

/// Order book for a single symbol
#[derive(Debug)]
pub struct OrderBook {
    symbol: String,
    /// Bids sorted by price descending (highest first)
    bids: Vec<Level>,
    /// Asks sorted by price ascending (lowest first)
    asks: Vec<Level>,
    /// Last processed update ID
    last_update_id: u64,
    /// Whether the book has been initialized with a snapshot
    initialized: bool,
    /// Maximum depth levels to maintain
    max_depth: usize,
    /// Timestamp of last update
    last_update_time: u64,
}

impl View for OrderBook {
    type V = BookView;

    closed spec fn view(&self) -> BookView {
        BookView {
            symbol: self.symbol@,
            bids: self.bids@,
            asks: self.asks@,
            last_update_id: self.last_update_id,
            initialized: self.initialized,
            max_depth: self.max_depth,
            last_update_time: self.last_update_time,
        }
    }
}

impl OrderBook {
    #[verifier::type_invariant]
    spec fn inv(&self) -> bool {
        self@.well_formed()
    }

    /// Create a new empty order book
    pub fn new(symbol: &str, max_depth: usize) -> (book: OrderBook)
        ensures
            book@ == BookView::empty(symbol@, max_depth),
            book@.well_formed(),
    {
        OrderBook {
            symbol: symbol.to_owned(),
            bids: Vec::new(),
            asks: Vec::new(),
            last_update_id: 0,
            initialized: false,
            max_depth,
            last_update_time: 0,
        }
    }

    /// Initialize with a snapshot from REST API
    pub fn init_snapshot(&mut self, snapshot: &OrderBookSnapshot)
        ensures
            final(self)@ == old(self)@.after_snapshot(
                snapshot.last_update_id,
                snapshot.bids@,
                snapshot.asks@,
            ),
            final(self)@.well_formed(),
    {
        proof {
            use_type_invariant(&*self);
        }
        let mut bids: Vec<Level> = Vec::new();
        let mut asks: Vec<Level> = Vec::new();
        load_levels(Side::Bid, &mut bids, &snapshot.bids, self.max_depth);
        load_levels(Side::Ask, &mut asks, &snapshot.asks, self.max_depth);
        self.bids = bids;
        self.asks = asks;
        self.last_update_id = snapshot.last_update_id;
        self.initialized = true;
    }

    /// Apply a depth update
    ///
    /// Returns true if the update was applied, false if it was skipped:
    /// the book is then left as it was.
    pub fn apply_update(&mut self, update: &DepthUpdate) -> (applied: bool)
        ensures
            applied == old(self)@.accepts(update.final_update_id),
            applied ==> final(self)@ == old(self)@.after_update(
                update.final_update_id,
                update.event_time,
                update.bids@,
                update.asks@,
            ),
            !applied ==> final(self)@ == old(self)@,
            final(self)@.well_formed(),
    {
        proof {
            use_type_invariant(&*self);
        }
        if !self.initialized {
            return false;
        }
        if update.final_update_id <= self.last_update_id {
            return false;
        }
        let mut bids: Vec<Level> = Vec::new();
        let mut asks: Vec<Level> = Vec::new();
        std::mem::swap(&mut self.bids, &mut bids);
        std::mem::swap(&mut self.asks, &mut asks);
        apply_levels(Side::Bid, &mut bids, &update.bids, self.max_depth);
        apply_levels(Side::Ask, &mut asks, &update.asks, self.max_depth);
        self.bids = bids;
        self.asks = asks;
        self.last_update_id = update.final_update_id;
        self.last_update_time = update.event_time;
        true
    }

    /// Get best bid price
    pub fn best_bid(&self) -> (r: Option<Decimal>)
        ensures
            r == self@.best_bid(),
    {
        if self.bids.len() > 0 {
            Some(self.bids[0].price)
        } else {
            None
        }
    }

    /// Get best ask price
    pub fn best_ask(&self) -> (r: Option<Decimal>)
        ensures
            r == self@.best_ask(),
    {
        if self.asks.len() > 0 {
            Some(self.asks[0].price)
        } else {
            None
        }
    }

    /// The symbol the book is kept for
    pub fn symbol(&self) -> (r: &str)
        ensures
            r@ == self@.symbol,
    {
        self.symbol.as_str()
    }

    /// The most levels either side keeps; neither side ever holds more,
    /// and both are ladders.
    pub fn max_depth(&self) -> (r: usize)
        ensures
            r == self@.max_depth,
            self@.well_formed(),
    {
        proof {
            use_type_invariant(self);
        }
        self.max_depth
    }

    /// Check if the book is initialized
    pub fn is_initialized(&self) -> (r: bool)
        ensures
            r == self@.initialized,
    {
        self.initialized
    }

    /// Get last update ID
    pub fn last_update_id(&self) -> (r: u64)
        ensures
            r == self@.last_update_id,
    {
        self.last_update_id
    }

    /// The mid, where it can be represented.
    fn mid_value(&self) -> (r: Option<Option<Decimal>>)
        ensures
            r is Some <==> self@.mid_representable(),
            r matches Some(value) ==> value == self@.mid_price(),
    {
        match (self.best_bid(), self.best_ask()) {
            (Some(bid), Some(ask)) => match mid(bid, ask) {
                Some(value) => Some(Some(value)),
                None => None,
            },
            _ => Some(None),
        }
    }

    /// The spread, where it can be represented.
    fn spread_value(&self) -> (r: Option<Option<Decimal>>)
        ensures
            r is Some <==> self@.spread_representable(),
            r matches Some(value) ==> value == self@.spread_bps(),
    {
        match (self.best_bid(), self.best_ask()) {
            (Some(bid), Some(ask)) => spread(bid, ask),
            _ => Some(None),
        }
    }

    /// The imbalance, where it can be represented.
    fn imbalance_value(&self, levels: usize) -> (r: Option<Option<Decimal>>)
        ensures
            r is Some <==> self@.imbalance_representable(levels as nat),
            r matches Some(value) ==> value == self@.imbalance(levels as nat),
            self@.bids.len() == 0 && self@.asks.len() == 0 ==> r == Some(None::<Decimal>),
    {
        let bid_volume = sum_quantities(&self.bids, levels);
        let ask_volume = sum_quantities(&self.asks, levels);
        balance(bid_volume, ask_volume)
    }

    /// The weighted imbalance, where it can be represented.
    fn weighted_imbalance_value(&self, levels: usize, decay: Decimal) -> (r: Option<Option<Decimal>>)
        ensures
            r is Some <==> self@.weighted_imbalance_representable(levels as nat, decay),
            r matches Some(value) ==> value == self@.weighted_imbalance(levels as nat, decay),
    {
        match self.mid_value() {
            Some(Some(_)) => {
                let bid_weighted = sum_weighted(&self.bids, levels, decay);
                let ask_weighted = sum_weighted(&self.asks, levels, decay);
                balance(bid_weighted, ask_weighted)
            },
            Some(None) => Some(None),
            None => None,
        }
    }

    /// The metrics, where they can be represented.
    fn metrics_value(&self) -> (r: Option<OrderBookMetrics>)
        ensures
            r is Some <==> self@.state_representable(),
            r matches Some(metrics) ==> metrics == self@.metrics(),
    {
        let decay = Decimal::from_parts(9, 1);
        match (
            self.mid_value(),
            self.spread_value(),
            self.imbalance_value(5),
            self.weighted_imbalance_value(10, decay.unwrap()),
            sum_quantities(&self.bids, self.bids.len()),
            sum_quantities(&self.asks, self.asks.len()),
        ) {
            (
                Some(mid_price),
                Some(spread_bps),
                Some(imbalance),
                Some(weighted_imbalance),
                Some(bid_depth),
                Some(ask_depth),
            ) => Some(
                OrderBookMetrics {
                    mid_price,
                    spread_bps,
                    imbalance,
                    weighted_imbalance,
                    bid_depth,
                    ask_depth,
                    bid_levels: self.bids.len(),
                    ask_levels: self.asks.len(),
                },
            ),
            _ => None,
        }
    }

    /// Get mid price
    ///
    /// `None` iff a side is empty. The mid must be representable;
    /// [`OrderBook::checked_mid_price`] serves callers that cannot know.
    pub fn mid_price(&self) -> (r: Option<Decimal>)
        requires
            self@.mid_representable(),
        ensures
            r == self@.mid_price(),
            r is None <==> self@.bids.len() == 0 || self@.asks.len() == 0,
    {
        self.mid_value().unwrap()
    }

    /// The mid price, or an error where it cannot be represented.
    pub fn checked_mid_price(&self) -> (r: Result<Option<Decimal>, MarketDataError>)
        ensures
            reports(r, self@.mid_representable(), self@.mid_price()),
    {
        if self.mid_value().is_some() {
            Ok(self.mid_price())
        } else {
            Err(unrepresentable())
        }
    }

    /// Get spread in basis points
    ///
    /// `None` iff a side is empty or the mid is not positive. The spread
    /// must be representable; [`OrderBook::checked_spread_bps`] serves
    /// callers that cannot know.
    pub fn spread_bps(&self) -> (r: Option<Decimal>)
        requires
            self@.spread_representable(),
        ensures
            r == self@.spread_bps(),
            r is None <==> !(self@.mid_price() matches Some(mid) && mid.is_positive_value()),
    {
        self.spread_value().unwrap()
    }

    /// The spread in basis points, or an error where it cannot be
    /// represented.
    pub fn checked_spread_bps(&self) -> (r: Result<Option<Decimal>, MarketDataError>)
        ensures
            reports(r, self@.spread_representable(), self@.spread_bps()),
    {
        if self.spread_value().is_some() {
            Ok(self.spread_bps())
        } else {
            Err(unrepresentable())
        }
    }

    /// Calculate order book imbalance at top N levels
    ///
    /// `None` iff the two volumes do not add up to a positive total, as
    /// in a book without levels. The imbalance must be representable;
    /// [`OrderBook::checked_imbalance`] serves callers that cannot know.
    pub fn imbalance(&self, levels: usize) -> (r: Option<Decimal>)
        requires
            self@.imbalance_representable(levels as nat),
        ensures
            r == self@.imbalance(levels as nat),
            r is Some <==> volume_positive(
                total_quantity(top(self@.bids, levels as nat)),
                total_quantity(top(self@.asks, levels as nat)),
            ),
            self@.bids.len() == 0 && self@.asks.len() == 0 ==> r is None,
    {
        self.imbalance_value(levels).unwrap()
    }

    /// The imbalance at top N levels, or an error where it cannot be
    /// represented. Of a book without levels it can: there is none.
    pub fn checked_imbalance(&self, levels: usize) -> (r: Result<Option<Decimal>, MarketDataError>)
        ensures
            reports(r, self@.imbalance_representable(levels as nat), self@.imbalance(levels as nat)),
            self@.bids.len() == 0 && self@.asks.len() == 0 ==> r == Ok::<
                Option<Decimal>,
                MarketDataError,
            >(None),
    {
        if self.imbalance_value(levels).is_some() {
            Ok(self.imbalance(levels))
        } else {
            Err(unrepresentable())
        }
    }

    /// Calculate weighted imbalance (closer to mid weighted more)
    ///
    /// `None` iff the mid is undefined or the weighted volumes do not add
    /// up to a positive total. The weighted imbalance must be
    /// representable; [`OrderBook::checked_weighted_imbalance`] serves
    /// callers that cannot know.
    pub fn weighted_imbalance(&self, levels: usize, decay: Decimal) -> (r: Option<Decimal>)
        requires
            self@.weighted_imbalance_representable(levels as nat, decay),
        ensures
            r == self@.weighted_imbalance(levels as nat, decay),
            r is Some <==> self@.mid_price() is Some && volume_positive(
                weighted_quantity(top(self@.bids, levels as nat), decay),
                weighted_quantity(top(self@.asks, levels as nat), decay),
            ),
    {
        self.weighted_imbalance_value(levels, decay).unwrap()
    }

    /// The weighted imbalance, or an error where it cannot be represented.
    pub fn checked_weighted_imbalance(&self, levels: usize, decay: Decimal) -> (r: Result<
        Option<Decimal>,
        MarketDataError,
    >)
        ensures
            reports(
                r,
                self@.weighted_imbalance_representable(levels as nat, decay),
                self@.weighted_imbalance(levels as nat, decay),
            ),
    {
        if self.weighted_imbalance_value(levels, decay).is_some() {
            Ok(self.weighted_imbalance(levels, decay))
        } else {
            Err(unrepresentable())
        }
    }

    /// Get current state for publishing
    ///
    /// The depths are the sums of the quantities of each side. The metrics
    /// must be representable; [`OrderBook::checked_state`] serves callers
    /// that cannot know.
    pub fn state(&self) -> (r: OrderBookState)
        requires
            self@.state_representable(),
        ensures
            r@ == self@.state(),
            Some(r.metrics.bid_depth) == total_quantity(r@.bids),
            Some(r.metrics.ask_depth) == total_quantity(r@.asks),
    {
        OrderBookState {
            symbol: self.symbol.clone(),
            timestamp: self.last_update_time,
            last_update_id: self.last_update_id,
            bids: self.bids.clone(),
            asks: self.asks.clone(),
            metrics: self.calculate_metrics(),
        }
    }

    /// The state for publishing, or an error where the metrics cannot be
    /// represented.
    pub fn checked_state(&self) -> (r: Result<OrderBookState, MarketDataError>)
        ensures
            if self@.state_representable() {
                r matches Ok(state) && state@ == self@.state()
            } else {
                r matches Err(e) && e@ == unrepresentable_error()
            },
    {
        if self.metrics_value().is_some() {
            Ok(self.state())
        } else {
            Err(unrepresentable())
        }
    }

    /// Calculate order book metrics
    fn calculate_metrics(&self) -> (r: OrderBookMetrics)
        requires
            self@.state_representable(),
        ensures
            r == self@.metrics(),
    {
        self.metrics_value().unwrap()
    }
}

/// `(bid + ask) / 2`, where it can be represented.
fn mid(bid: Decimal, ask: Decimal) -> (r: Option<Decimal>)
    ensures
        r == mid_of(bid, ask),
{
    match bid.checked_add(ask) {
        Some(sum) => sum.checked_div(Decimal::from_u64(2)),
        None => None,
    }
}

/// `(ask - bid) / mid * 10000` for a positive mid, where it can be
/// represented.
fn spread(bid: Decimal, ask: Decimal) -> (r: Option<Option<Decimal>>)
    ensures
        r is Some <==> spread_computable(bid, ask),
        r matches Some(value) ==> value == spread_of(bid, ask),
{
    match mid(bid, ask) {
        Some(mid) => {
            if mid.is_positive() {
                let ratio = match ask.checked_sub(bid) {
                    Some(width) => width.checked_div(mid),
                    None => None,
                };
                match ratio {
                    Some(ratio) => match ratio.checked_mul(Decimal::from_u64(10000)) {
                        Some(bps) => Some(Some(bps)),
                        None => None,
                    },
                    None => None,
                }
            } else {
                Some(None)
            }
        },
        None => None,
    }
}

/// `(bid - ask) / (bid + ask)` for a positive `bid + ask`, where it can be
/// represented.
fn balance(bid: Option<Decimal>, ask: Option<Decimal>) -> (r: Option<Option<Decimal>>)
    ensures
        r is Some <==> balance_computable(bid, ask),
        r matches Some(value) ==> value == balance_of(bid, ask),
        bid == Some(Decimal::whole(0)) && ask == Some(Decimal::whole(0)) ==> r == Some(
            None::<Decimal>,
        ),
{
    proof {
        Decimal::lemma_parts(0, 0);
        Decimal::whole(0).lemma_sign();
    }
    match (bid, ask) {
        (Some(b), Some(a)) => match b.checked_add(a) {
            Some(total) => {
                if total.is_positive() {
                    match b.checked_sub(a) {
                        Some(excess) => match excess.checked_div(total) {
                            Some(value) => Some(Some(value)),
                            None => None,
                        },
                        None => None,
                    }
                } else {
                    Some(None)
                }
            },
            None => None,
        },
        _ => None,
    }
}

} // verus!
