//! Data models for stock and cryptocurrency quotes.
use vstd::prelude::*;
use crate::text::copy_str;

verus! {

/// Type of financial instrument.
#[derive(Debug, Clone, Copy, PartialEq, Eq, Structural, Default)]
pub enum QuoteType {
    #[default]
    Equity,
    Cryptocurrency,
    Etf,
    MutualFund,
    Index,
    Currency,
    Future,
    Option,
}

/// The short label shown for each instrument type.
pub open spec fn quote_type_label(t: QuoteType) -> Seq<char> {
    match t {
        QuoteType::Equity => "Stock"@,
        QuoteType::Cryptocurrency => "Crypto"@,
        QuoteType::Etf => "ETF"@,
        QuoteType::MutualFund => "Fund"@,
        QuoteType::Index => "Index"@,
        QuoteType::Currency => "Forex"@,
        QuoteType::Future => "Future"@,
        QuoteType::Option => "Option"@,
    }
}

impl QuoteType {
    /// The label under which the instrument type is displayed.
    pub fn to_string(&self) -> (r: String)
        ensures
            r@ == quote_type_label(*self),
    {
        match self {
            QuoteType::Equity => copy_str("Stock"),
            QuoteType::Cryptocurrency => copy_str("Crypto"),
            QuoteType::Etf => copy_str("ETF"),
            QuoteType::MutualFund => copy_str("Fund"),
            QuoteType::Index => copy_str("Index"),
            QuoteType::Currency => copy_str("Forex"),
            QuoteType::Future => copy_str("Future"),
            QuoteType::Option => copy_str("Option"),
        }
    }
}

/// Market trading state.
#[derive(Debug, Clone, Copy, PartialEq, Eq, Structural, Default)]
pub enum MarketState {
    Pre,
    Regular,
    Post,
    #[default]
    Closed,
}

/// The label shown for each market state.
pub open spec fn market_state_label(s: MarketState) -> Seq<char> {
    match s {
        MarketState::Pre => "Pre"@,
        MarketState::Regular => "Open"@,
        MarketState::Post => "Post"@,
        MarketState::Closed => "Closed"@,
    }
}

impl MarketState {
    /// The label under which the market state is displayed.
    pub fn to_string(&self) -> (r: String)
        ensures
            r@ == market_state_label(*self),
    {
        match self {
            MarketState::Pre => copy_str("Pre"),
            MarketState::Regular => copy_str("Open"),
            MarketState::Post => copy_str("Post"),
            MarketState::Closed => copy_str("Closed"),
        }
    }

    /// Whether trading happens in this state (pre-market, regular or post-market).
    pub fn is_open(&self) -> (r: bool)
        ensures
            r == (*self != MarketState::Closed),
    {
        !matches!(self, MarketState::Closed)
    }
}

/// Sort order for displaying quotes.
#[derive(Debug, Clone, Copy, PartialEq, Eq, Structural, Default)]
pub enum SortOrder {
    #[default]
    Symbol,
    Name,
    Price,
    Change,
    ChangePercent,
    Volume,
    MarketCap,
}

/// The successor of each sort order in the cycle that `s` walks.
pub open spec fn spec_next_order(o: SortOrder) -> SortOrder {
    match o {
        SortOrder::Symbol => SortOrder::Name,
        SortOrder::Name => SortOrder::Price,
        SortOrder::Price => SortOrder::Change,
        SortOrder::Change => SortOrder::ChangePercent,
        SortOrder::ChangePercent => SortOrder::Volume,
        SortOrder::Volume => SortOrder::MarketCap,
        SortOrder::MarketCap => SortOrder::Symbol,
    }
}

/// The column header of each sort order.
pub open spec fn spec_header(o: SortOrder) -> Seq<char> {
    match o {
        SortOrder::Symbol => "SYMBOL"@,
        SortOrder::Name => "NAME"@,
        SortOrder::Price => "PRICE"@,
        SortOrder::Change => "CHANGE"@,
        SortOrder::ChangePercent => "CHG%"@,
        SortOrder::Volume => "VOLUME"@,
        SortOrder::MarketCap => "MKT CAP"@,
    }
}

/// `o` advanced `n` times through the cycle.
pub open spec fn next_order_n(o: SortOrder, n: nat) -> SortOrder
    decreases n,
{
    if n == 0 { o } else { spec_next_order(next_order_n(o, (n - 1) as nat)) }
}

impl SortOrder {
    /// Get the next sort order in cycle.
    pub fn next(self) -> (r: Self)
        ensures
            r == spec_next_order(self),
    {
        match self {
            SortOrder::Symbol => SortOrder::Name,
            SortOrder::Name => SortOrder::Price,
            SortOrder::Price => SortOrder::Change,
            SortOrder::Change => SortOrder::ChangePercent,
            SortOrder::ChangePercent => SortOrder::Volume,
            SortOrder::Volume => SortOrder::MarketCap,
            SortOrder::MarketCap => SortOrder::Symbol,
        }
    }

    /// Get column header name.
    pub fn header(&self) -> (r: &'static str)
        ensures
            r@ == spec_header(*self),
    {
        match self {
            SortOrder::Symbol => "SYMBOL",
            SortOrder::Name => "NAME",
            SortOrder::Price => "PRICE",
            SortOrder::Change => "CHANGE",
            SortOrder::ChangePercent => "CHG%",
            SortOrder::Volume => "VOLUME",
            SortOrder::MarketCap => "MKT CAP",
        }
    }
}

/// Sort direction.
#[derive(Debug, Clone, Copy, PartialEq, Eq, Structural, Default)]
pub enum SortDirection {
    #[default]
    Ascending,
    Descending,
}

/// The opposite direction.
pub open spec fn spec_toggle(d: SortDirection) -> SortDirection {
    match d {
        SortDirection::Ascending => SortDirection::Descending,
        SortDirection::Descending => SortDirection::Ascending,
    }
}

impl SortDirection {
    /// The opposite direction.
    pub fn toggle(self) -> (r: Self)
        ensures
            r == spec_toggle(self),
    {
        match self {
            SortDirection::Ascending => SortDirection::Descending,
            SortDirection::Descending => SortDirection::Ascending,
        }
    }
}

impl<T: Clone> Clone for PriceHistory<T> {
    /// A buffer with the same capacity and as many entries, each a clone of
    /// the entry at its place.
    fn clone(&self) -> (r: Self)
        ensures
            r.spec_max_len() == self.spec_max_len(),
            r.spec_prices().len() == self.spec_prices().len(),
            forall|i: int| 0 <= i < self.spec_prices().len() ==> cloned::<T>(
                self.spec_prices()[i],
                #[trigger] r.spec_prices()[i],
            ),
    {
        proof { use_type_invariant(self); }
        PriceHistory { prices: self.prices.clone(), max_len: self.max_len }
    }
}

/// A quote as the watchlist logic sees it. The prices of the quote source are
/// floating-point numbers; here each is carried as an order key, an integer
/// whose order is the numeric order of the price it stands for, so that
/// sorting and threshold checks can be stated and proved over integers.
#[derive(Debug, Clone)]
pub struct Quote {
    /// Ticker symbol (e.g., "AAPL", "BTC-USD")
    pub symbol: String,
    /// Full name of the security
    pub name: String,
    /// Order key of the current price
    pub price_key: i64,
    /// Order key of the change from the previous close
    pub change_key: i64,
    /// Order key of the percentage change from the previous close
    pub change_percent_key: i64,
    /// Trading volume
    pub volume: u64,
    /// Market capitalization
    pub market_cap: Option<u64>,
    /// Quote type (EQUITY, CRYPTOCURRENCY, ETF, etc.)
    pub quote_type: QuoteType,
    /// Market state (PRE, REGULAR, POST, CLOSED)
    pub market_state: MarketState,
}

impl Default for Quote {
    /// An empty quote: no symbol or name, every price zero (order key 0), no
    /// volume or market capitalization, an equity whose market is closed.
    fn default() -> (r: Self)
        ensures
            r.symbol@.len() == 0,
            r.name@.len() == 0,
            r.price_key == 0,
            r.change_key == 0,
            r.change_percent_key == 0,
            r.volume == 0,
            r.market_cap is None,
            r.quote_type == QuoteType::Equity,
            r.market_state == MarketState::Closed,
    {
        Quote {
            symbol: String::new(),
            name: String::new(),
            price_key: 0,
            change_key: 0,
            change_percent_key: 0,
            volume: 0,
            market_cap: None,
            quote_type: QuoteType::Equity,
            market_state: MarketState::Closed,
        }
    }
}

/// Alert threshold for a symbol; each bound is the order key of a price.
#[derive(Debug, Clone)]
pub struct Alert {
    pub symbol: String,
    pub above: Option<i64>,
    pub below: Option<i64>,
}

/// Cycling seven times through the sort orders returns to the start, and no
/// shorter positive number of steps does.
pub proof fn lemma_sort_order_cycle(o: SortOrder)
    ensures
        next_order_n(o, 7) == o,
        forall|n: nat| 0 < n < 7 ==> #[trigger] next_order_n(o, n) != o,
{
    reveal_with_fuel(next_order_n, 8);
}

/// Toggling the sort direction twice gives back the direction.
pub proof fn lemma_toggle_involutive(d: SortDirection)
    ensures
        spec_toggle(spec_toggle(d)) == d,
        spec_toggle(d) != d,
{
}

/// Rolling buffer of recent prices for sparkline rendering. At most
/// `max_len` entries are kept; the oldest is dropped to make room.
#[derive(Debug)]
pub struct PriceHistory<T> {
    prices: Vec<T>,
    max_len: usize,
}

/// `h1` is `h0` after `price` was pushed: same capacity, and the price
/// appended, the oldest entry first dropped when `h0` was full.
pub open spec fn pushed<T>(h0: PriceHistory<T>, h1: PriceHistory<T>, price: T) -> bool {
    &&& h1.spec_max_len() == h0.spec_max_len()
    &&& h0.spec_prices().len() < h0.spec_max_len() ==> h1.spec_prices() == h0.spec_prices().push(price)
    &&& h0.spec_prices().len() >= h0.spec_max_len() ==> h1.spec_prices() == h0.spec_prices().drop_first().push(
        price,
    )
}

/// The last `cap` entries of `ps`, or all of them when there are fewer.
pub open spec fn most_recent<T>(ps: Seq<T>, cap: nat) -> Seq<T> {
    if ps.len() <= cap {
        ps
    } else {
        ps.subrange(ps.len() - cap, ps.len() as int)
    }
}

/// A buffer that starts empty and takes the prices `ps` one push at a time
/// (`hs[i + 1]` is `hs[i]` after pushing `ps[i]`) ends up holding the most
/// recent `max_len` of them, oldest first.
#[verifier::spinoff_prover]
#[verifier::rlimit(30)]
pub proof fn lemma_history_keeps_most_recent<T>(hs: Seq<PriceHistory<T>>, ps: Seq<T>)
    requires
        hs.len() == ps.len() + 1,
        hs[0].spec_prices().len() == 0,
        hs[0].spec_max_len() > 0,
        forall|i: int| 0 <= i < ps.len() ==> pushed(#[trigger] hs[i], hs[i + 1], ps[i]),
    ensures
        hs.last().spec_max_len() == hs[0].spec_max_len(),
        hs.last().spec_prices() == most_recent(ps, hs[0].spec_max_len()),
    decreases ps.len(),
{
    let c = hs[0].spec_max_len();
    if ps.len() == 0 {
        assert(hs[0].spec_prices() =~= ps);
    } else {
        let n = ps.len() as int;
        let hs0 = hs.drop_last();
        let ps0 = ps.drop_last();
        assert forall|i: int| 0 <= i < ps0.len() implies pushed(#[trigger] hs0[i], hs0[i + 1], ps0[i]) by {
            assert(pushed(hs[i], hs[i + 1], ps[i]));
        }
        lemma_history_keeps_most_recent(hs0, ps0);
        let prev = hs[n - 1];
        assert(pushed(hs[n - 1], hs[n], ps[n - 1]));
        assert(prev.spec_prices() == most_recent(ps0, c));
        if ps0.len() < c {
            assert(hs.last().spec_prices() =~= most_recent(ps, c));
        } else {
            assert(prev.spec_prices().len() == c);
            assert(prev.spec_prices().drop_first().push(ps[n - 1]) =~= ps.subrange(n - c, n));
        }
    }
}

impl<T> PriceHistory<T> {
    #[verifier::type_invariant]
    spec fn inv(self) -> bool {
        &&& 0 < self.max_len
        &&& self.prices.len() <= self.max_len
    }

    /// The entries, oldest first.
    pub closed spec fn spec_prices(&self) -> Seq<T> {
        self.prices@
    }

    /// The capacity the buffer was made with.
    pub closed spec fn spec_max_len(&self) -> nat {
        self.max_len as nat
    }

    /// An empty buffer with room for `max_len` entries; a buffer with no room
    /// is refused.
    pub fn new(max_len: usize) -> (h: Self)
        requires
            max_len > 0,
        ensures
            h.spec_prices() == Seq::<T>::empty(),
            h.spec_max_len() == max_len,
    {
        PriceHistory { prices: Vec::new(), max_len }
    }

    /// Appends `price`, first dropping the oldest entry when the buffer is full.
    pub fn push(&mut self, price: T)
        ensures
            pushed(*old(self), *final(self), price),
            final(self).spec_prices().len() <= final(self).spec_max_len(),
    {
        proof { use_type_invariant(&*self); }
        let mut prices: Vec<T> = Vec::new();
        std::mem::swap(&mut prices, &mut self.prices);
        if prices.len() >= self.max_len {
            prices.remove(0);
        }
        prices.push(price);
        self.prices = prices;
    }

    /// The entries, oldest first.
    pub fn as_slice(&self) -> (r: &[T])
        ensures
            r@ == self.spec_prices(),
    {
        self.prices.as_slice()
    }

    /// The number of entries.
    pub fn len(&self) -> (r: usize)
        ensures
            r == self.spec_prices().len(),
            r <= self.spec_max_len(),
    {
        proof { use_type_invariant(self); }
        self.prices.len()
    }

    /// Whether there is no entry.
    pub fn is_empty(&self) -> (r: bool)
        ensures
            r == (self.spec_prices().len() == 0),
    {
        self.prices.len() == 0
    }
}

} // verus!
