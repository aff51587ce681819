//! Order book manager
//!
//! Manages multiple order books for different symbols. The books are kept
//! in the order in which their symbols were first initialized; no symbol
//! has two books.

use crate::error::MarketDataError;
use crate::orderbook::metrics::{unrepresentable, unrepresentable_error};
use crate::orderbook::book::{BookView, OrderBook};
use crate::orderbook::{OrderBookState, StateView};
use crate::parser::{DepthUpdate, OrderBookSnapshot, PriceLevel};
use crate::text::{same_text, texts};
use vstd::prelude::*;

verus! {

/// The index of the first book kept for `symbol`, if there is one.
pub open spec fn find(books: Seq<BookView>, symbol: Seq<char>) -> Option<int>
    decreases books.len(),
{
    if books.len() == 0 {
        None
    } else if books.last().symbol == symbol && find(books.drop_last(), symbol) is None {
        Some(books.len() - 1)
    } else {
        find(books.drop_last(), symbol)
    }
}

/// No symbol has two books.
pub open spec fn distinct(books: Seq<BookView>) -> bool {
    forall|i: int, j: int|
        #![trigger books[i], books[j]]
        0 <= i < j < books.len() ==> books[i].symbol != books[j].symbol
}

/// What an [`OrderBookManager`] holds.
pub struct ManagerView {
    pub books: Seq<BookView>,
    pub max_depth: usize,
}

impl ManagerView {
    /// No symbol has two books, and every book is well-formed.
    pub open spec fn well_formed(self) -> bool {
        &&& distinct(self.books)
        &&& forall|i: int| 0 <= i < self.books.len() ==> (#[trigger] self.books[i]).well_formed()
    }

    /// The book kept for `symbol`.
    pub open spec fn book(self, symbol: Seq<char>) -> Option<BookView> {
        match find(self.books, symbol) {
            Some(i) => Some(self.books[i]),
            None => None,
        }
    }

    /// The manager after a book for `symbol` has been made from a snapshot:
    /// it takes the place of the book kept for the symbol, or comes last.
    pub open spec fn after_init(
        self,
        symbol: Seq<char>,
        last_update_id: u64,
        bids: Seq<PriceLevel>,
        asks: Seq<PriceLevel>,
    ) -> ManagerView {
        let book = BookView::empty(symbol, self.max_depth).after_snapshot(
            last_update_id,
            bids,
            asks,
        );
        match find(self.books, symbol) {
            Some(i) => ManagerView { books: self.books.update(i, book), ..self },
            None => ManagerView { books: self.books.push(book), ..self },
        }
    }

    /// Whether a diff for `symbol` that ends at `final_update_id` is
    /// applied: the symbol has a book, and the book accepts the diff.
    pub open spec fn accepts(self, symbol: Seq<char>, final_update_id: u64) -> bool {
        self.book(symbol) matches Some(book) && book.accepts(final_update_id)
    }

    /// The manager after an accepted diff.
    pub open spec fn after_update(
        self,
        symbol: Seq<char>,
        final_update_id: u64,
        event_time: u64,
        bids: Seq<PriceLevel>,
        asks: Seq<PriceLevel>,
    ) -> ManagerView
        recommends
            self.book(symbol) is Some,
    {
        let i = find(self.books, symbol)->0;
        ManagerView {
            books: self.books.update(
                i,
                self.books[i].after_update(final_update_id, event_time, bids, asks),
            ),
            ..self
        }
    }

    /// Whether everything that is published of the books can be
    /// represented.
    pub open spec fn states_representable(self) -> bool {
        forall|i: int|
            0 <= i < self.books.len() ==> (#[trigger] self.books[i]).state_representable()
    }

    /// The states of all books, in the order of the books.
    pub open spec fn states(self) -> Seq<StateView> {
        Seq::new(self.books.len(), |i: int| self.books[i].state())
    }

    /// The symbols of all books, in the order of the books.
    pub open spec fn symbols(self) -> Seq<Seq<char>> {
        Seq::new(self.books.len(), |i: int| self.books[i].symbol)
    }
}

/// `find` gives the one index at which a symbol stands among distinct
/// books, and `None` where it stands nowhere.
pub proof fn lemma_find(books: Seq<BookView>, symbol: Seq<char>)
    ensures
        find(books, symbol) matches Some(i) ==> 0 <= i < books.len() && books[i].symbol == symbol,
        find(books, symbol) is None ==> forall|j: int|
            0 <= j < books.len() ==> (#[trigger] books[j]).symbol != symbol,
        forall|j: int|
            0 <= j < books.len() && (#[trigger] books[j]).symbol == symbol && distinct(books)
                ==> find(books, symbol) == Some(j),
    decreases books.len(),
{
    if books.len() > 0 {
        let rest = books.drop_last();
        lemma_find(rest, symbol);
        assert forall|j: int|
            0 <= j < books.len() && (#[trigger] books[j]).symbol == symbol && distinct(
                books,
            ) implies find(books, symbol) == Some(j) by {
            if j < rest.len() {
                assert(rest[j] == books[j]);
                assert forall|a: int, b: int|
                    #![trigger rest[a], rest[b]]
                    0 <= a < b < rest.len() implies rest[a].symbol != rest[b].symbol by {
                    assert(rest[a] == books[a] && rest[b] == books[b]);
                }
            } else {
                if find(rest, symbol) is Some {
                    let i = find(rest, symbol)->0;
                    assert(rest[i] == books[i]);
                }
            }
        }
        if find(books, symbol) is None {
            assert forall|j: int| 0 <= j < books.len() implies (#[trigger] books[j]).symbol
                != symbol by {
                if j < rest.len() {
                    assert(rest[j] == books[j]);
                }
            }
        }
    }
}

/// Putting a book in the place of one of the same symbol moves no symbol.
pub proof fn lemma_find_after_update(books: Seq<BookView>, at: int, book: BookView, symbol: Seq<char>)
    requires
        0 <= at < books.len(),
        book.symbol == books[at].symbol,
    ensures
        find(books.update(at, book), symbol) == find(books, symbol),
    decreases books.len(),
{
    let updated = books.update(at, book);
    if at == books.len() - 1 {
        assert(updated.drop_last() == books.drop_last());
    } else {
        assert(updated.drop_last() == books.drop_last().update(at, book));
        assert(books.drop_last()[at] == books[at]);
        lemma_find_after_update(books.drop_last(), at, book, symbol);
    }
}

/// A book that comes last is found under its symbol where the symbol had
/// no book, and moves no other symbol.
pub proof fn lemma_find_after_push(books: Seq<BookView>, book: BookView, symbol: Seq<char>)
    ensures
        find(books.push(book), symbol) == if find(books, symbol) is Some {
            find(books, symbol)
        } else if book.symbol == symbol {
            Some(books.len() as int)
        } else {
            None
        },
{
    assert(books.push(book).drop_last() == books);
}

impl ManagerView {
    /// Making a book from a snapshot gives the symbol that book, and
    /// leaves the book of every other symbol as it was.
    pub proof fn lemma_init_touches_one_book(
        self,
        symbol: Seq<char>,
        last_update_id: u64,
        bids: Seq<PriceLevel>,
        asks: Seq<PriceLevel>,
        other: Seq<char>,
    )
        ensures
            self.after_init(symbol, last_update_id, bids, asks).book(symbol) == Some(
                BookView::empty(symbol, self.max_depth).after_snapshot(last_update_id, bids, asks),
            ),
            other != symbol ==> self.after_init(symbol, last_update_id, bids, asks).book(other)
                == self.book(other),
    {
        let book = BookView::empty(symbol, self.max_depth).after_snapshot(
            last_update_id,
            bids,
            asks,
        );
        lemma_find(self.books, symbol);
        lemma_find(self.books, other);
        match find(self.books, symbol) {
            Some(i) => {
                lemma_find_after_update(self.books, i, book, symbol);
                lemma_find_after_update(self.books, i, book, other);
            },
            None => {
                lemma_find_after_push(self.books, book, symbol);
                lemma_find_after_push(self.books, book, other);
            },
        }
    }

    /// An accepted diff changes the book of its symbol as the book itself
    /// would change, and leaves the book of every other symbol as it was.
    pub proof fn lemma_update_touches_one_book(
        self,
        symbol: Seq<char>,
        final_update_id: u64,
        event_time: u64,
        bids: Seq<PriceLevel>,
        asks: Seq<PriceLevel>,
        other: Seq<char>,
    )
        requires
            self.book(symbol) is Some,
        ensures
            self.after_update(symbol, final_update_id, event_time, bids, asks).book(symbol)
                == Some(
                self.book(symbol)->0.after_update(final_update_id, event_time, bids, asks),
            ),
            other != symbol ==> self.after_update(
                symbol,
                final_update_id,
                event_time,
                bids,
                asks,
            ).book(other) == self.book(other),
    {
        let i = find(self.books, symbol)->0;
        let book = self.books[i].after_update(final_update_id, event_time, bids, asks);
        lemma_find(self.books, symbol);
        lemma_find(self.books, other);
        lemma_find_after_update(self.books, i, book, symbol);
        lemma_find_after_update(self.books, i, book, other);
    }
}

/// What each of the books holds.
pub open spec fn views(books: Seq<OrderBook>) -> Seq<BookView> {
    books.map_values(|book: OrderBook| book@)
}

/// What each of the states holds.
pub open spec fn state_views(states: Seq<OrderBookState>) -> Seq<StateView> {
    states.map_values(|state: OrderBookState| state@)
}

/// Manages order books for multiple symbols
#[derive(Debug)]
pub struct OrderBookManager {
    books: Vec<OrderBook>,
    max_depth: usize,
}

impl View for OrderBookManager {
    type V = ManagerView;

    closed spec fn view(&self) -> ManagerView {
        ManagerView {
            books: views(self.books@),
            max_depth: self.max_depth,
        }
    }
}

impl OrderBookManager {
    #[verifier::type_invariant]
    spec fn inv(&self) -> bool {
        distinct(self@.books)
    }

    /// Create a new order book manager
    pub fn new() -> (manager: OrderBookManager)
        ensures
            manager@ == (ManagerView { books: Seq::empty(), max_depth: 20 }),
    {
        let manager = OrderBookManager { books: Vec::new(), max_depth: 20 };
        assert(manager@.books =~= Seq::empty());
        manager
    }

    /// Create with custom depth
    pub fn with_depth(max_depth: usize) -> (manager: OrderBookManager)
        ensures
            manager@ == (ManagerView { books: Seq::empty(), max_depth }),
    {
        let manager = OrderBookManager { books: Vec::new(), max_depth };
        assert(manager@.books =~= Seq::empty());
        manager
    }

    /// The depth that every book of this manager is made with; no two of
    /// its books are for the same symbol.
    pub fn max_depth(&self) -> (r: usize)
        ensures
            r == self@.max_depth,
            distinct(self@.books),
    {
        proof {
            use_type_invariant(self);
        }
        self.max_depth
    }

    /// The index of the book kept for `symbol`.
    fn locate(&self, symbol: &str) -> (r: Option<usize>)
        ensures
            r matches Some(i) ==> find(self@.books, symbol@) == Some(i as int) && i
                < self.books.len(),
            r is None ==> find(self@.books, symbol@) is None,
    {
        let mut i: usize = 0;
        while i < self.books.len()
            invariant
                i <= self.books.len(),
                self@.books.len() == self.books.len(),
                forall|j: int| 0 <= j < i ==> (#[trigger] self@.books[j]).symbol != symbol@,
            decreases self.books.len() - i,
        {
            if same_text(self.books[i].symbol(), symbol) {
                proof {
                    use_type_invariant(self);
                    lemma_find(self@.books, symbol@);
                    assert(self@.books[i as int].symbol == symbol@);
                }
                return Some(i);
            }
            i += 1;
        }
        proof {
            lemma_find(self@.books, symbol@);
        }
        None
    }

    /// Initialize an order book with a snapshot
    pub fn init_book(&mut self, symbol: &str, snapshot: OrderBookSnapshot)
        ensures
            final(self)@ == old(self)@.after_init(
                symbol@,
                snapshot.last_update_id,
                snapshot.bids@,
                snapshot.asks@,
            ),
            old(self)@.well_formed() ==> final(self)@.well_formed(),
    {
        proof {
            use_type_invariant(&*self);
            lemma_find(self@.books, symbol@);
        }
        let mut book = OrderBook::new(symbol, self.max_depth);
        book.init_snapshot(&snapshot);
        let at = self.locate(symbol);
        let mut books: Vec<OrderBook> = Vec::new();
        std::mem::swap(&mut self.books, &mut books);
        let ghost before = views(books@);
        match at {
            Some(i) => {
                books.set(i, book);
                assert(views(books@) =~= before.update(i as int, book@));
            },
            None => {
                books.push(book);
                assert(views(books@) =~= before.push(book@));
            },
        }
        self.books = books;
    }

    /// Apply a depth update to the appropriate book
    ///
    /// Returns true if the update was applied; false if the symbol has no
    /// book or its book skipped the update: the manager is then left as it
    /// was.
    pub fn apply_update(&mut self, update: &DepthUpdate) -> (applied: bool)
        ensures
            applied == old(self)@.accepts(update.symbol@, update.final_update_id),
            applied ==> final(self)@ == old(self)@.after_update(
                update.symbol@,
                update.final_update_id,
                update.event_time,
                update.bids@,
                update.asks@,
            ),
            !applied ==> final(self)@ == old(self)@,
            old(self)@.well_formed() ==> final(self)@.well_formed(),
    {
        proof {
            use_type_invariant(&*self);
        }
        match self.locate(update.symbol.as_str()) {
            Some(i) => {
                let mut books: Vec<OrderBook> = Vec::new();
                std::mem::swap(&mut self.books, &mut books);
                let ghost before = views(books@);
                let mut book = books.remove(i);
                let applied = book.apply_update(update);
                books.insert(i, book);
                assert(views(books@) =~= before.update(i as int, book@));
                assert(!applied ==> before.update(i as int, book@) =~= before);
                self.books = books;
                applied
            },
            None => false,
        }
    }

    /// Get the state of a specific book
    ///
    /// `None` iff the symbol has no book. The metrics of the book must be
    /// representable; [`OrderBookManager::checked_state`] serves callers
    /// that cannot know.
    pub fn get_state(&self, symbol: &str) -> (r: Option<OrderBookState>)
        requires
            self@.book(symbol@) matches Some(book) ==> book.state_representable(),
        ensures
            match self@.book(symbol@) {
                Some(book) => r matches Some(state) && state@ == book.state(),
                None => r is None,
            },
    {
        match self.locate(symbol) {
            Some(i) => Some(self.books[i].state()),
            None => None,
        }
    }

    /// The state of a specific book, `Ok(None)` where the symbol has no
    /// book, or an error where the metrics of the book cannot be
    /// represented.
    pub fn checked_state(&self, symbol: &str) -> (r: Result<Option<OrderBookState>, MarketDataError>)
        ensures
            match self@.book(symbol@) {
                Some(book) => if book.state_representable() {
                    r matches Ok(Some(state)) && state@ == book.state()
                } else {
                    r matches Err(e) && e@ == unrepresentable_error()
                },
                None => r matches Ok(None),
            },
    {
        match self.locate(symbol) {
            Some(i) => match self.books[i].checked_state() {
                Ok(_) => Ok(self.get_state(symbol)),
                Err(error) => Err(error),
            },
            None => Ok(None),
        }
    }

    /// Get states of all books
    ///
    /// The metrics of every book must be representable;
    /// [`OrderBookManager::checked_all_states`] serves callers that cannot
    /// know.
    pub fn get_all_states(&self) -> (r: Vec<OrderBookState>)
        requires
            self@.states_representable(),
        ensures
            state_views(r@) == self@.states(),
    {
        let mut states: Vec<OrderBookState> = Vec::new();
        let mut i: usize = 0;
        while i < self.books.len()
            invariant
                i <= self.books.len(),
                self@.states_representable(),
                self@.books.len() == self.books.len(),
                states@.len() == i,
                forall|j: int| 0 <= j < i ==> (#[trigger] states@[j])@ == self@.books[j].state(),
            decreases self.books.len() - i,
        {
            assert(self@.books[i as int].state_representable());
            let state = self.books[i].state();
            states.push(state);
            i += 1;
        }
        assert(state_views(states@) =~= self@.states());
        states
    }

    /// The states of all books, or an error where the metrics of some book
    /// cannot be represented.
    pub fn checked_all_states(&self) -> (r: Result<Vec<OrderBookState>, MarketDataError>)
        ensures
            if self@.states_representable() {
                r matches Ok(states) && state_views(states@) == self@.states()
            } else {
                r matches Err(e) && e@ == unrepresentable_error()
            },
    {
        let mut i: usize = 0;
        while i < self.books.len()
            invariant
                i <= self.books.len(),
                self@.books.len() == self.books.len(),
                forall|j: int| 0 <= j < i ==> (#[trigger] self@.books[j]).state_representable(),
            decreases self.books.len() - i,
        {
            if self.books[i].checked_state().is_err() {
                assert(!self@.books[i as int].state_representable());
                return Err(unrepresentable());
            }
            i += 1;
        }
        Ok(self.get_all_states())
    }

    /// Check if a book is initialized
    pub fn is_initialized(&self, symbol: &str) -> (r: bool)
        ensures
            r == (self@.book(symbol@) matches Some(book) && book.initialized),
    {
        match self.locate(symbol) {
            Some(i) => self.books[i].is_initialized(),
            None => false,
        }
    }

    /// Get the last update ID for a symbol
    pub fn last_update_id(&self, symbol: &str) -> (r: Option<u64>)
        ensures
            r == match self@.book(symbol@) {
                Some(book) => Some(book.last_update_id),
                None => None,
            },
    {
        match self.locate(symbol) {
            Some(i) => Some(self.books[i].last_update_id()),
            None => None,
        }
    }

    /// Get list of symbols being tracked
    pub fn symbols(&self) -> (r: Vec<String>)
        ensures
            texts(r@) == self@.symbols(),
    {
        let mut symbols: Vec<String> = Vec::new();
        let mut i: usize = 0;
        while i < self.books.len()
            invariant
                i <= self.books.len(),
                self@.books.len() == self.books.len(),
                symbols@.len() == i,
                forall|j: int| 0 <= j < i ==> (#[trigger] symbols@[j])@ == self@.books[j].symbol,
            decreases self.books.len() - i,
        {
            let symbol = self.books[i].symbol().to_owned();
            symbols.push(symbol);
            i += 1;
        }
        assert(texts(symbols@) =~= self@.symbols());
        symbols
    }

    /// Check if a symbol exists
    pub fn has_symbol(&self, symbol: &str) -> (r: bool)
        ensures
            r == self@.book(symbol@) is Some,
    {
        self.locate(symbol).is_some()
    }
}

impl Default for OrderBookManager {
    /// The manager without books whose books will keep no level.
    fn default() -> (manager: OrderBookManager)
        ensures
            manager@ == (ManagerView { books: Seq::empty(), max_depth: 0 }),
    {
        OrderBookManager::with_depth(0)
    }
}

} // verus!
