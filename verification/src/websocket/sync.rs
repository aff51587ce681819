//! Bringing a book in step with the diff stream of its symbol.
//!
//! Diffs that arrive before the snapshot are buffered. When the snapshot
//! is in, buffered diffs that it already covers are dropped; the first diff
//! to be applied has to reach back to the update right after the snapshot,
//! or the snapshot is too old and another one is needed. From then on every
//! diff has to start right after the last one applied; anything else is a
//! gap, and the handshake starts over.

use crate::error::MarketDataError;
use crate::json::json_of_text;
use crate::orderbook::manager::{ManagerView, OrderBookManager};
use crate::orderbook::metrics::unrepresentable_error;
use crate::orderbook::OrderBookState;
use crate::parser::{
    message_of, DepthUpdate, DepthUpdateView, MessageView, OrderBookSnapshot, ParsedMessage,
    SnapshotView,
};
use crate::text::{digits_of, number_text};
use crate::text::same_text;
use vstd::string::StringExecFns;
use vstd::prelude::*;

verus! {

/// Where the handshake of one symbol stands.
#[derive(Debug, Clone, Copy, PartialEq, Eq, Structural)]
pub enum SyncPhase {
    /// No usable snapshot yet: diffs are buffered.
    Buffering,
    /// The snapshot is in, no diff has been applied on top of it.
    Primed,
    /// Diffs are applied as they come.
    Streaming,
}

/// What is done with a diff.
#[derive(Debug, Clone, Copy, PartialEq, Eq, Structural)]
pub enum Verdict {
    /// The diff is for another symbol and is left alone.
    Foreign,
    /// The diff is kept until the snapshot is in.
    Hold,
    /// The diff is covered by the snapshot and dropped.
    Drop,
    /// The diff is applied to the book.
    Apply,
    /// The diff does not connect to the book: a new snapshot is needed.
    Gap,
}

/// What a snapshot led to.
#[derive(Debug, Clone, Copy, PartialEq, Eq, Structural)]
pub enum SnapshotOutcome {
    /// No snapshot was awaited: nothing was changed.
    Ignored,
    /// The book was initialized and every buffered diff dropped or applied.
    Synced,
    /// A buffered diff does not connect: a new snapshot is needed.
    Refetch,
}

/// What is done with a diff that covers `first_update_id ..=
/// final_update_id`, given the phase and the `last_update_id` of the
/// initialized book of the symbol, if it has one.
pub open spec fn verdict_of(
    phase: SyncPhase,
    last_update_id: Option<u64>,
    first_update_id: u64,
    final_update_id: u64,
) -> Verdict {
    match (phase, last_update_id) {
        (SyncPhase::Buffering, _) => Verdict::Hold,
        (_, None) => Verdict::Gap,
        (SyncPhase::Primed, Some(last)) => {
            if final_update_id <= last {
                Verdict::Drop
            } else if first_update_id <= last + 1 {
                Verdict::Apply
            } else {
                Verdict::Gap
            }
        },
        (SyncPhase::Streaming, Some(last)) => {
            if first_update_id == last + 1 && first_update_id <= final_update_id {
                Verdict::Apply
            } else {
                Verdict::Gap
            }
        },
    }
}

/// The `last_update_id` of the initialized book of `symbol`.
pub open spec fn last_seen(manager: ManagerView, symbol: Seq<char>) -> Option<u64> {
    match manager.book(symbol) {
        Some(book) => if book.initialized {
            Some(book.last_update_id)
        } else {
            None
        },
        None => None,
    }
}

/// Every one of the diffs is for `symbol`.
pub open spec fn all_for(symbol: Seq<char>, diffs: Seq<DepthUpdateView>) -> bool {
    forall|i: int| 0 <= i < diffs.len() ==> (#[trigger] diffs[i]).symbol == symbol
}

/// What each of the diffs holds.
pub open spec fn diff_views(diffs: Seq<DepthUpdate>) -> Seq<DepthUpdateView> {
    diffs.map_values(|diff: DepthUpdate| diff@)
}

/// What a [`DepthSync`] holds.
pub struct SyncView {
    pub symbol: Seq<char>,
    pub phase: SyncPhase,
    pub buffer: Seq<DepthUpdateView>,
}

impl SyncView {
    /// Every buffered diff is for the symbol.
    pub open spec fn well_formed(self) -> bool {
        all_for(self.symbol, self.buffer)
    }

    /// What is done with `diff`.
    pub open spec fn verdict(self, manager: ManagerView, diff: DepthUpdateView) -> Verdict {
        if diff.symbol != self.symbol {
            Verdict::Foreign
        } else {
            verdict_of(
                self.phase,
                last_seen(manager, self.symbol),
                diff.first_update_id,
                diff.final_update_id,
            )
        }
    }

    /// The handshake and the books after `diff` has been dealt with.
    pub open spec fn after_diff(self, manager: ManagerView, diff: DepthUpdateView) -> (
        SyncView,
        ManagerView,
    ) {
        match self.verdict(manager, diff) {
            Verdict::Foreign | Verdict::Drop => (self, manager),
            Verdict::Hold => (SyncView { buffer: self.buffer.push(diff), ..self }, manager),
            Verdict::Apply => (
                SyncView { phase: SyncPhase::Streaming, ..self },
                manager.after_update(
                    self.symbol,
                    diff.final_update_id,
                    diff.event_time,
                    diff.bids,
                    diff.asks,
                ),
            ),
            Verdict::Gap => (
                SyncView { phase: SyncPhase::Buffering, buffer: seq![diff], ..self },
                manager,
            ),
        }
    }

    /// The handshake and the books after the pending diffs have been dealt
    /// with in order, up to the first that does not connect: that one and
    /// those behind it are buffered again.
    pub open spec fn drain(self, manager: ManagerView, pending: Seq<DepthUpdateView>) -> (
        SyncView,
        ManagerView,
    )
        decreases pending.len(),
    {
        if pending.len() == 0 {
            (self, manager)
        } else {
            let diff = pending[0];
            match self.verdict(manager, diff) {
                Verdict::Apply => {
                    let (sync, books) = self.after_diff(manager, diff);
                    sync.drain(books, pending.drop_first())
                },
                Verdict::Drop | Verdict::Foreign => self.drain(manager, pending.drop_first()),
                Verdict::Hold | Verdict::Gap => (
                    SyncView { phase: SyncPhase::Buffering, buffer: pending, ..self },
                    manager,
                ),
            }
        }
    }

    /// The handshake and the books after a snapshot: while diffs are
    /// buffered, the book of the symbol is made anew from the snapshot and
    /// the buffered diffs are dealt with; otherwise nothing changes.
    pub open spec fn after_snapshot(self, manager: ManagerView, snapshot: SnapshotView) -> (
        SyncView,
        ManagerView,
    ) {
        if self.phase == SyncPhase::Buffering {
            (SyncView { phase: SyncPhase::Primed, buffer: Seq::empty(), ..self }).drain(
                manager.after_init(
                    self.symbol,
                    snapshot.last_update_id,
                    snapshot.bids,
                    snapshot.asks,
                ),
                self.buffer,
            )
        } else {
            (self, manager)
        }
    }
}

impl SyncView {
    /// Past the snapshot, the symbol has an initialized book.
    pub open spec fn coherent(self, manager: ManagerView) -> bool {
        self.phase != SyncPhase::Buffering ==> last_seen(manager, self.symbol) is Some
    }

    /// Dealing with a diff keeps the symbol's book initialized while the
    /// handshake is past the snapshot.
    pub proof fn lemma_diff_keeps_coherent(self, manager: ManagerView, diff: DepthUpdateView)
        requires
            self.coherent(manager),
        ensures
            self.after_diff(manager, diff).0.coherent(self.after_diff(manager, diff).1),
    {
        if self.verdict(manager, diff) == Verdict::Apply {
            manager.lemma_update_touches_one_book(
                self.symbol,
                diff.final_update_id,
                diff.event_time,
                diff.bids,
                diff.asks,
                self.symbol,
            );
        }
    }

    /// Dealing with pending diffs keeps the symbol's book initialized while
    /// the handshake is past the snapshot.
    pub proof fn lemma_drain_keeps_coherent(
        self,
        manager: ManagerView,
        pending: Seq<DepthUpdateView>,
    )
        requires
            self.coherent(manager),
        ensures
            self.drain(manager, pending).0.coherent(self.drain(manager, pending).1),
        decreases pending.len(),
    {
        if pending.len() > 0 {
            let diff = pending[0];
            match self.verdict(manager, diff) {
                Verdict::Apply => {
                    self.lemma_diff_keeps_coherent(manager, diff);
                    let (sync, books) = self.after_diff(manager, diff);
                    sync.lemma_drain_keeps_coherent(books, pending.drop_first());
                },
                Verdict::Drop | Verdict::Foreign => {
                    self.lemma_drain_keeps_coherent(manager, pending.drop_first());
                },
                Verdict::Hold | Verdict::Gap => {},
            }
        }
    }

    /// A snapshot that is taken in leaves the symbol with an initialized
    /// book, whatever becomes of the buffered diffs.
    pub proof fn lemma_snapshot_initializes(self, manager: ManagerView, snapshot: SnapshotView)
        requires
            self.phase == SyncPhase::Buffering,
        ensures
            last_seen(self.after_snapshot(manager, snapshot).1, self.symbol) is Some,
            self.after_snapshot(manager, snapshot).0.coherent(
                self.after_snapshot(manager, snapshot).1,
            ),
    {
        let primed = SyncView { phase: SyncPhase::Primed, buffer: Seq::empty(), ..self };
        let books = manager.after_init(
            self.symbol,
            snapshot.last_update_id,
            snapshot.bids,
            snapshot.asks,
        );
        manager.lemma_init_touches_one_book(
            self.symbol,
            snapshot.last_update_id,
            snapshot.bids,
            snapshot.asks,
            self.symbol,
        );
        primed.lemma_drain_keeps_initialized(books, self.buffer);
        primed.lemma_drain_keeps_coherent(books, self.buffer);
    }

    /// Dealing with pending diffs leaves an initialized book initialized.
    pub proof fn lemma_drain_keeps_initialized(
        self,
        manager: ManagerView,
        pending: Seq<DepthUpdateView>,
    )
        requires
            last_seen(manager, self.symbol) is Some,
        ensures
            last_seen(self.drain(manager, pending).1, self.symbol) is Some,
        decreases pending.len(),
    {
        if pending.len() > 0 {
            let diff = pending[0];
            match self.verdict(manager, diff) {
                Verdict::Apply => {
                    manager.lemma_update_touches_one_book(
                        self.symbol,
                        diff.final_update_id,
                        diff.event_time,
                        diff.bids,
                        diff.asks,
                        self.symbol,
                    );
                    let (sync, books) = self.after_diff(manager, diff);
                    sync.lemma_drain_keeps_initialized(books, pending.drop_first());
                },
                Verdict::Drop | Verdict::Foreign => {
                    self.lemma_drain_keeps_initialized(manager, pending.drop_first());
                },
                Verdict::Hold | Verdict::Gap => {},
            }
        }
    }
}

/// A diff that starts right after the last update of an initialized book,
/// and whose range is not empty, is applied once the snapshot is in, and
/// the book accepts it.
pub proof fn lemma_next_diff_applied(sync: SyncView, manager: ManagerView, diff: DepthUpdateView)
    requires
        sync.phase != SyncPhase::Buffering,
        diff.symbol == sync.symbol,
        last_seen(manager, sync.symbol) matches Some(last) && diff.first_update_id == last + 1,
        diff.first_update_id <= diff.final_update_id,
    ensures
        sync.verdict(manager, diff) == Verdict::Apply,
        manager.accepts(diff.symbol, diff.final_update_id),
{
}

/// A diff is applied only where the book accepts it, and the first diff
/// applied on top of a snapshot reaches back to the update right after the
/// snapshot.
pub proof fn lemma_applied_connects(sync: SyncView, manager: ManagerView, diff: DepthUpdateView)
    requires
        sync.verdict(manager, diff) == Verdict::Apply,
    ensures
        manager.accepts(diff.symbol, diff.final_update_id),
        last_seen(manager, sync.symbol) matches Some(last) && diff.first_update_id <= last + 1
            <= diff.final_update_id,
        sync.phase == SyncPhase::Streaming ==> diff.first_update_id == last_seen(
            manager,
            sync.symbol,
        )->0 + 1,
{
}

/// The per-symbol state of the snapshot/diff handshake.
#[derive(Debug)]
pub struct DepthSync {
    symbol: String,
    phase: SyncPhase,
    buffer: Vec<DepthUpdate>,
}

impl View for DepthSync {
    type V = SyncView;

    closed spec fn view(&self) -> SyncView {
        SyncView { symbol: self.symbol@, phase: self.phase, buffer: diff_views(self.buffer@) }
    }
}

/// The decision of [`verdict_of`].
pub fn decide(
    phase: SyncPhase,
    last_update_id: Option<u64>,
    first_update_id: u64,
    final_update_id: u64,
) -> (r: Verdict)
    ensures
        r == verdict_of(phase, last_update_id, first_update_id, final_update_id),
{
    match (phase, last_update_id) {
        (SyncPhase::Buffering, _) => Verdict::Hold,
        (_, None) => Verdict::Gap,
        (SyncPhase::Primed, Some(last)) => {
            if final_update_id <= last {
                Verdict::Drop
            } else if first_update_id <= last || first_update_id - 1 == last {
                Verdict::Apply
            } else {
                Verdict::Gap
            }
        },
        (SyncPhase::Streaming, Some(last)) => {
            if first_update_id > last && first_update_id - 1 == last && first_update_id
                <= final_update_id {
                Verdict::Apply
            } else {
                Verdict::Gap
            }
        },
    }
}

/// The `last_update_id` of the initialized book of `symbol`.
pub fn last_seen_in(manager: &OrderBookManager, symbol: &str) -> (r: Option<u64>)
    ensures
        r == last_seen(manager@, symbol@),
{
    if manager.is_initialized(symbol) {
        manager.last_update_id(symbol)
    } else {
        None
    }
}

impl DepthSync {
    #[verifier::type_invariant]
    spec fn inv(&self) -> bool {
        self@.well_formed()
    }

    /// The handshake of `symbol` at its start: diffs are buffered.
    pub fn new(symbol: &str) -> (sync: DepthSync)
        ensures
            sync@ == (SyncView {
                symbol: symbol@,
                phase: SyncPhase::Buffering,
                buffer: Seq::empty(),
            }),
    {
        let sync = DepthSync {
            symbol: symbol.to_owned(),
            phase: SyncPhase::Buffering,
            buffer: Vec::new(),
        };
        assert(sync@.buffer =~= Seq::empty());
        sync
    }

    /// The symbol whose book is kept in step.
    pub fn symbol(&self) -> (r: &str)
        ensures
            r@ == self@.symbol,
    {
        self.symbol.as_str()
    }

    /// Where the handshake stands.
    pub fn phase(&self) -> (r: SyncPhase)
        ensures
            r == self@.phase,
    {
        self.phase
    }

    /// The number of diffs that wait for a snapshot.
    pub fn buffered(&self) -> (r: usize)
        ensures
            r == self@.buffer.len(),
    {
        self.buffer.len()
    }

    /// Starts the handshake over, as after a reconnect: what was buffered
    /// came over the old connection and is forgotten.
    pub fn restart(&mut self)
        ensures
            final(self)@ == (SyncView {
                phase: SyncPhase::Buffering,
                buffer: Seq::empty(),
                ..old(self)@
            }),
    {
        proof {
            use_type_invariant(&*self);
        }
        self.phase = SyncPhase::Buffering;
        self.buffer = Vec::new();
        assert(self@.buffer =~= Seq::empty());
    }

    /// Deals with a diff from the stream.
    pub fn on_diff(&mut self, manager: &mut OrderBookManager, diff: DepthUpdate) -> (verdict: Verdict)
        ensures
            verdict == old(self)@.verdict(old(manager)@, diff@),
            (final(self)@, final(manager)@) == old(self)@.after_diff(old(manager)@, diff@),
            final(self)@.well_formed(),
    {
        proof {
            use_type_invariant(&*self);
        }
        if !same_text(diff.symbol.as_str(), self.symbol.as_str()) {
            return Verdict::Foreign;
        }
        let last = last_seen_in(manager, self.symbol.as_str());
        let verdict = decide(self.phase, last, diff.first_update_id, diff.final_update_id);
        match verdict {
            Verdict::Hold => {
                let mut buffer: Vec<DepthUpdate> = Vec::new();
                std::mem::swap(&mut self.buffer, &mut buffer);
                let ghost held = diff_views(buffer@);
                buffer.push(diff);
                assert(diff_views(buffer@) =~= held.push(diff@));
                self.buffer = buffer;
            },
            Verdict::Apply => {
                let applied = manager.apply_update(&diff);
                assert(applied);
                self.phase = SyncPhase::Streaming;
            },
            Verdict::Gap => {
                let mut buffer: Vec<DepthUpdate> = Vec::new();
                buffer.push(diff);
                assert(diff_views(buffer@) =~= seq![diff@]);
                self.buffer = buffer;
                self.phase = SyncPhase::Buffering;
            },
            _ => {},
        }
        verdict
    }

    /// Deals with a snapshot from the REST endpoint.
    pub fn on_snapshot(&mut self, manager: &mut OrderBookManager, snapshot: OrderBookSnapshot) -> (outcome:
        SnapshotOutcome)
        ensures
            (final(self)@, final(manager)@) == old(self)@.after_snapshot(old(manager)@, snapshot@),
            outcome == if old(self)@.phase != SyncPhase::Buffering {
                SnapshotOutcome::Ignored
            } else if final(self)@.phase == SyncPhase::Buffering {
                SnapshotOutcome::Refetch
            } else {
                SnapshotOutcome::Synced
            },
            final(self)@.well_formed(),
    {
        proof {
            use_type_invariant(&*self);
        }
        match self.phase {
            SyncPhase::Buffering => {},
            _ => {
                return SnapshotOutcome::Ignored;
            },
        }
        let ghost goal = self@.after_snapshot(manager@, snapshot@);
        let mut pending: Vec<DepthUpdate> = Vec::new();
        std::mem::swap(&mut self.buffer, &mut pending);
        manager.init_book(self.symbol.as_str(), snapshot);
        self.phase = SyncPhase::Primed;
        proof {
            assert(self@.buffer =~= Seq::empty());
            assert(diff_views(pending@).skip(0) =~= diff_views(pending@));
        }
        let mut i: usize = 0;
        while i < pending.len()
            invariant
                i <= pending.len(),
                all_for(self@.symbol, diff_views(pending@)),
                self@.buffer.len() == 0,
                self@.phase != SyncPhase::Buffering,
                old(self)@.phase == SyncPhase::Buffering,
                goal == old(self)@.after_snapshot(old(manager)@, snapshot@),
                goal == self@.drain(manager@, diff_views(pending@).skip(i as int)),
            decreases pending.len() - i,
        {
            let last = last_seen_in(manager, self.symbol.as_str());
            let verdict = decide(
                self.phase,
                last,
                pending[i].first_update_id,
                pending[i].final_update_id,
            );
            proof {
                let waiting = diff_views(pending@);
                assert(waiting.skip(i as int)[0] == pending@[i as int]@);
                assert(waiting.skip(i as int).drop_first() == waiting.skip(i + 1));
                assert(waiting[i as int].symbol == self@.symbol);
                assert(self@.buffer =~= Seq::empty());
            }
            match verdict {
                Verdict::Apply => {
                    let applied = manager.apply_update(&pending[i]);
                    assert(applied);
                    self.phase = SyncPhase::Streaming;
                },
                Verdict::Drop => {},
                _ => {
                    let ghost waiting = diff_views(pending@);
                    let rest = pending.split_off(i);
                    assert(diff_views(rest@) =~= waiting.skip(i as int));
                    self.buffer = rest;
                    self.phase = SyncPhase::Buffering;
                    return SnapshotOutcome::Refetch;
                },
            }
            i += 1;
        }
        proof {
            assert(self@.buffer =~= Seq::empty());
        }
        SnapshotOutcome::Synced
    }
}

/// The address of the REST depth snapshot of a symbol.
pub open spec fn snapshot_url_of(rest_endpoint: Seq<char>, symbol: Seq<char>, limit: usize) -> Seq<
    char,
> {
    rest_endpoint + "/depth?symbol="@ + symbol + "&limit="@ + digits_of(limit as nat)
}

/// The address of the REST depth snapshot of a symbol.
pub fn snapshot_url(rest_endpoint: &str, symbol: &str, limit: usize) -> (url: String)
    ensures
        url@ == snapshot_url_of(rest_endpoint@, symbol@, limit),
{
    let mut url = String::from_str(rest_endpoint);
    url.append("/depth?symbol=");
    url.append(symbol);
    url.append("&limit=");
    url.append(number_text(limit as u64).as_str());
    url
}

/// What is to be done once a frame has been dealt with.
#[derive(Debug)]
pub enum Processed {
    /// Nothing.
    Nothing,
    /// A diff was applied: publish the state of its book.
    Publish(OrderBookState),
    /// A diff did not connect: fetch a new snapshot for the symbol.
    Resync(String),
}

/// The index of the first handshake that is kept for `symbol`.
pub open spec fn sync_index(syncs: Seq<SyncView>, symbol: Seq<char>) -> Option<int>
    decreases syncs.len(),
{
    if syncs.len() == 0 {
        None
    } else {
        match sync_index(syncs.drop_last(), symbol) {
            Some(i) => Some(i),
            None => if syncs.last().symbol == symbol {
                Some(syncs.len() - 1)
            } else {
                None
            },
        }
    }
}

/// `sync_index` gives the first index at which the symbol stands.
pub proof fn lemma_sync_index(syncs: Seq<SyncView>, symbol: Seq<char>)
    ensures
        sync_index(syncs, symbol) matches Some(i) ==> 0 <= i < syncs.len() && syncs[i].symbol
            == symbol && forall|j: int| 0 <= j < i ==> (#[trigger] syncs[j]).symbol != symbol,
        sync_index(syncs, symbol) is None ==> forall|j: int|
            0 <= j < syncs.len() ==> (#[trigger] syncs[j]).symbol != symbol,
    decreases syncs.len(),
{
    if syncs.len() > 0 {
        let rest = syncs.drop_last();
        lemma_sync_index(rest, symbol);
        if sync_index(rest, symbol) is Some {
            let i = sync_index(rest, symbol)->0;
            assert(rest[i] == syncs[i]);
            assert forall|j: int| 0 <= j < i implies (#[trigger] syncs[j]).symbol != symbol by {
                assert(rest[j] == syncs[j]);
            }
        } else {
            assert forall|j: int| 0 <= j < syncs.len() - 1 implies (#[trigger] syncs[j]).symbol
                != symbol by {
                assert(rest[j] == syncs[j]);
            }
        }
    }
}

/// The handshakes and the books after `diff` has been dealt with by the
/// handshake of its symbol, and what was done with it.
pub open spec fn route_diff(syncs: Seq<SyncView>, manager: ManagerView, diff: DepthUpdateView) -> (
    Seq<SyncView>,
    ManagerView,
    Verdict,
) {
    match sync_index(syncs, diff.symbol) {
        Some(i) => {
            let (sync, books) = syncs[i].after_diff(manager, diff);
            (syncs.update(i, sync), books, syncs[i].verdict(manager, diff))
        },
        None => (syncs, manager, Verdict::Foreign),
    }
}

/// The handshakes and the books after a snapshot for `symbol` has been
/// dealt with by the handshake of the symbol.
pub open spec fn route_snapshot(
    syncs: Seq<SyncView>,
    manager: ManagerView,
    symbol: Seq<char>,
    snapshot: SnapshotView,
) -> (Seq<SyncView>, ManagerView) {
    match sync_index(syncs, symbol) {
        Some(i) => {
            let (sync, books) = syncs[i].after_snapshot(manager, snapshot);
            (syncs.update(i, sync), books)
        },
        None => (syncs, manager),
    }
}

/// Whether `result` is what dealing with `message` gives, where the
/// handshakes and the books were `syncs` and `manager` before and are
/// `after` and `books` afterwards.
///
/// A depth update goes to the handshake of its symbol. Where it is
/// applied, the state of its book is to be published, or an error reported
/// where the metrics of the book cannot be represented; where it does not
/// connect, a new snapshot is asked for. Any other message changes
/// nothing.
pub open spec fn handled(
    syncs: Seq<SyncView>,
    manager: ManagerView,
    message: MessageView,
    after: Seq<SyncView>,
    books: ManagerView,
    result: Result<Processed, MarketDataError>,
) -> bool {
    match message {
        MessageView::DepthUpdate(diff) => {
            let (next, updated, verdict) = route_diff(syncs, manager, diff);
            &&& after == next
            &&& books == updated
            &&& match verdict {
                Verdict::Apply => match updated.book(diff.symbol) {
                    Some(book) => if book.state_representable() {
                        result matches Ok(Processed::Publish(state)) && state@ == book.state()
                    } else {
                        result matches Err(e) && e@ == unrepresentable_error()
                    },
                    None => result matches Ok(Processed::Nothing),
                },
                Verdict::Gap => result matches Ok(Processed::Resync(symbol)) && symbol@
                    == diff.symbol,
                _ => result matches Ok(Processed::Nothing),
            }
        },
        _ => after == syncs && books == manager && result matches Ok(Processed::Nothing),
    }
}

/// What each of the handshakes holds.
pub open spec fn sync_views(syncs: Seq<DepthSync>) -> Seq<SyncView> {
    syncs.map_values(|sync: DepthSync| sync@)
}

/// The handshakes of all configured symbols.
#[derive(Debug)]
pub struct Synchronizer {
    syncs: Vec<DepthSync>,
}

impl View for Synchronizer {
    type V = Seq<SyncView>;

    closed spec fn view(&self) -> Seq<SyncView> {
        sync_views(self.syncs@)
    }
}

impl Synchronizer {
    /// A handshake at its start for each of the symbols.
    pub fn new(symbols: &Vec<String>) -> (synchronizer: Synchronizer)
        ensures
            synchronizer@.len() == symbols@.len(),
            forall|i: int|
                0 <= i < symbols@.len() ==> (#[trigger] synchronizer@[i]) == (SyncView {
                    symbol: symbols@[i]@,
                    phase: SyncPhase::Buffering,
                    buffer: Seq::empty(),
                }),
    {
        let mut syncs: Vec<DepthSync> = Vec::new();
        let mut i: usize = 0;
        while i < symbols.len()
            invariant
                i <= symbols.len(),
                syncs@.len() == i,
                forall|j: int|
                    0 <= j < i ==> (#[trigger] syncs@[j])@ == (SyncView {
                        symbol: symbols@[j]@,
                        phase: SyncPhase::Buffering,
                        buffer: Seq::empty(),
                    }),
            decreases symbols.len() - i,
        {
            syncs.push(DepthSync::new(symbols[i].as_str()));
            i += 1;
        }
        Synchronizer { syncs }
    }

    /// The index of the first handshake that is kept for `symbol`.
    fn locate(&self, symbol: &str) -> (r: Option<usize>)
        ensures
            r matches Some(i) ==> sync_index(self@, symbol@) == Some(i as int) && i
                < self.syncs.len(),
            r is None ==> sync_index(self@, symbol@) is None,
    {
        let mut i: usize = 0;
        while i < self.syncs.len()
            invariant
                i <= self.syncs.len(),
                self@.len() == self.syncs.len(),
                forall|j: int| 0 <= j < i ==> (#[trigger] self@[j]).symbol != symbol@,
            decreases self.syncs.len() - i,
        {
            if same_text(self.syncs[i].symbol(), symbol) {
                proof {
                    lemma_sync_index(self@, symbol@);
                    assert(self@[i as int].symbol == symbol@);
                }
                return Some(i);
            }
            i += 1;
        }
        proof {
            lemma_sync_index(self@, symbol@);
        }
        None
    }

    /// Whether every symbol has its snapshot in.
    pub fn synced(&self) -> (r: bool)
        ensures
            r == forall|i: int|
                0 <= i < self@.len() ==> (#[trigger] self@[i]).phase != SyncPhase::Buffering,
    {
        let mut i: usize = 0;
        while i < self.syncs.len()
            invariant
                i <= self.syncs.len(),
                self@.len() == self.syncs.len(),
                forall|j: int| 0 <= j < i ==> (#[trigger] self@[j]).phase != SyncPhase::Buffering,
            decreases self.syncs.len() - i,
        {
            match self.syncs[i].phase() {
                SyncPhase::Buffering => {
                    assert(self@[i as int].phase == SyncPhase::Buffering);
                    return false;
                },
                _ => {},
            }
            i += 1;
        }
        true
    }

    /// Starts every handshake over, as after a reconnect.
    pub fn restart(&mut self)
        ensures
            final(self)@.len() == old(self)@.len(),
            forall|i: int|
                0 <= i < old(self)@.len() ==> (#[trigger] final(self)@[i]) == (SyncView {
                    phase: SyncPhase::Buffering,
                    buffer: Seq::empty(),
                    ..old(self)@[i]
                }),
    {
        let mut i: usize = 0;
        while i < self.syncs.len()
            invariant
                i <= self.syncs.len(),
                self@.len() == old(self)@.len(),
                self@.len() == self.syncs.len(),
                forall|j: int|
                    0 <= j < i ==> (#[trigger] self@[j]) == (SyncView {
                        phase: SyncPhase::Buffering,
                        buffer: Seq::empty(),
                        ..old(self)@[j]
                    }),
                forall|j: int| i <= j < self@.len() ==> (#[trigger] self@[j]) == old(self)@[j],
            decreases self.syncs.len() - i,
        {
            let ghost before = self@;
            assert(before[i as int] == old(self)@[i as int]);
            let mut sync = self.syncs.remove(i);
            sync.restart();
            self.syncs.insert(i, sync);
            assert(self@ =~= before.update(i as int, sync@));
            assert forall|j: int| 0 <= j < i + 1 implies (#[trigger] self@[j]) == (SyncView {
                phase: SyncPhase::Buffering,
                buffer: Seq::empty(),
                ..old(self)@[j]
            }) by {
                if j < i {
                    assert(self@[j] == before[j]);
                }
            }
            i += 1;
        }
    }

    /// Deals with a diff from the stream.
    pub fn on_diff(&mut self, manager: &mut OrderBookManager, diff: DepthUpdate) -> (verdict: Verdict)
        ensures
            (final(self)@, final(manager)@, verdict) == route_diff(
                old(self)@,
                old(manager)@,
                diff@,
            ),
    {
        match self.locate(diff.symbol.as_str()) {
            Some(i) => {
                let ghost before = self@;
                let mut sync = self.syncs.remove(i);
                let verdict = sync.on_diff(manager, diff);
                self.syncs.insert(i, sync);
                assert(self@ =~= before.update(i as int, sync@));
                verdict
            },
            None => Verdict::Foreign,
        }
    }

    /// Deals with a snapshot for `symbol` from the REST endpoint.
    pub fn on_snapshot(
        &mut self,
        manager: &mut OrderBookManager,
        symbol: &str,
        snapshot: OrderBookSnapshot,
    ) -> (outcome: SnapshotOutcome)
        ensures
            (final(self)@, final(manager)@) == route_snapshot(
                old(self)@,
                old(manager)@,
                symbol@,
                snapshot@,
            ),
            outcome == match sync_index(old(self)@, symbol@) {
                Some(i) => if old(self)@[i].phase != SyncPhase::Buffering {
                    SnapshotOutcome::Ignored
                } else if final(self)@[i].phase == SyncPhase::Buffering {
                    SnapshotOutcome::Refetch
                } else {
                    SnapshotOutcome::Synced
                },
                None => SnapshotOutcome::Ignored,
            },
    {
        match self.locate(symbol) {
            Some(i) => {
                let ghost before = self@;
                let mut sync = self.syncs.remove(i);
                let outcome = sync.on_snapshot(manager, snapshot);
                self.syncs.insert(i, sync);
                assert(self@ =~= before.update(i as int, sync@));
                outcome
            },
            None => SnapshotOutcome::Ignored,
        }
    }

    /// Deals with a parsed message.
    pub fn on_message(&mut self, manager: &mut OrderBookManager, message: ParsedMessage) -> (result:
        Result<Processed, MarketDataError>)
        ensures
            handled(
                old(self)@,
                old(manager)@,
                message@,
                final(self)@,
                final(manager)@,
                result,
            ),
    {
        match message {
            ParsedMessage::DepthUpdate(diff) => {
                let symbol = diff.symbol.clone();
                match self.on_diff(manager, diff) {
                    Verdict::Apply => match manager.checked_state(symbol.as_str()) {
                        Ok(Some(state)) => Ok(Processed::Publish(state)),
                        Ok(None) => Ok(Processed::Nothing),
                        Err(error) => Err(error),
                    },
                    Verdict::Gap => Ok(Processed::Resync(symbol)),
                    _ => Ok(Processed::Nothing),
                }
            },
            _ => Ok(Processed::Nothing),
        }
    }

    /// Process a single WebSocket message
    ///
    /// A frame that is rejected by the parser changes nothing.
    pub fn process_message(&mut self, manager: &mut OrderBookManager, raw: &str) -> (result: Result<
        Processed,
        MarketDataError,
    >)
        ensures
            match message_of(json_of_text(raw@), raw@) {
                Ok(message) => handled(
                    old(self)@,
                    old(manager)@,
                    message,
                    final(self)@,
                    final(manager)@,
                    result,
                ),
                Err(error) => {
                    &&& final(self)@ == old(self)@
                    &&& final(manager)@ == old(manager)@
                    &&& result matches Err(e) && e@ == error
                },
            },
    {
        match ParsedMessage::parse(raw) {
            Ok(message) => self.on_message(manager, message),
            Err(error) => Err(error),
        }
    }
}

} // verus!
