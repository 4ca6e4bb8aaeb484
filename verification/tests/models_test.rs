use stonktop::models::{MarketState, PriceHistory, Quote, QuoteType, SortDirection, SortOrder};

// --- PriceHistory tests ---

#[test]
fn test_price_history_new() {
    let h: PriceHistory<f64> = PriceHistory::new(5);
    assert!(h.is_empty());
    assert_eq!(h.len(), 0);
    assert_eq!(h.as_slice(), &[] as &[f64]);
}

#[test]
fn test_price_history_push() {
    let mut h = PriceHistory::new(5);
    h.push(100.0);
    h.push(101.0);
    assert_eq!(h.len(), 2);
    assert_eq!(h.as_slice(), &[100.0, 101.0]);
}

#[test]
fn test_price_history_rolling_eviction() {
    let mut h = PriceHistory::new(3);
    h.push(1.0);
    h.push(2.0);
    h.push(3.0);
    assert_eq!(h.len(), 3);
    h.push(4.0);
    assert_eq!(h.len(), 3);
    assert_eq!(h.as_slice(), &[2.0, 3.0, 4.0]);
}

#[test]
fn test_price_history_capacity_one_keeps_latest() {
    let mut h = PriceHistory::new(1);
    h.push(7u64);
    h.push(8u64);
    assert_eq!(h.as_slice(), &[8]);
    let c = h.clone();
    assert_eq!(c.as_slice(), &[8]);
}

// --- SortDirection tests ---

#[test]
fn test_sort_direction_toggle() {
    assert_eq!(SortDirection::Ascending.toggle(), SortDirection::Descending);
    assert_eq!(SortDirection::Descending.toggle(), SortDirection::Ascending);
}

// --- SortOrder tests ---

#[test]
fn test_sort_order_next_cycles() {
    let mut order = SortOrder::Symbol;
    for _ in 0..7 {
        order = order.next();
    }
    assert_eq!(order, SortOrder::Symbol); // full cycle
}

#[test]
fn test_sort_order_header() {
    assert_eq!(SortOrder::Symbol.header(), "SYMBOL");
    assert_eq!(SortOrder::Price.header(), "PRICE");
    assert_eq!(SortOrder::MarketCap.header(), "MKT CAP");
}

#[test]
fn test_sort_order_all_headers_and_successors() {
    assert_eq!(SortOrder::Name.header(), "NAME");
    assert_eq!(SortOrder::Change.header(), "CHANGE");
    assert_eq!(SortOrder::ChangePercent.header(), "CHG%");
    assert_eq!(SortOrder::Volume.header(), "VOLUME");
    assert_eq!(SortOrder::Symbol.next(), SortOrder::Name);
    assert_eq!(SortOrder::ChangePercent.next(), SortOrder::Volume);
    assert_eq!(SortOrder::MarketCap.next(), SortOrder::Symbol);
}

// --- QuoteType Display tests ---

#[test]
fn test_quote_type_display() {
    assert_eq!(QuoteType::Equity.to_string(), "Stock");
    assert_eq!(QuoteType::Cryptocurrency.to_string(), "Crypto");
    assert_eq!(QuoteType::Etf.to_string(), "ETF");
    assert_eq!(QuoteType::Currency.to_string(), "Forex");
}

// --- MarketState Display tests ---

#[test]
fn test_market_state_display() {
    assert_eq!(MarketState::Regular.to_string(), "Open");
    assert_eq!(MarketState::Closed.to_string(), "Closed");
    assert_eq!(MarketState::Pre.to_string(), "Pre");
    assert_eq!(MarketState::Post.to_string(), "Post");
}

#[test]
fn test_market_state_is_open() {
    assert!(MarketState::Pre.is_open());
    assert!(MarketState::Regular.is_open());
    assert!(MarketState::Post.is_open());
    assert!(!MarketState::Closed.is_open());
}

#[test]
fn test_price_history_keeps_most_recent() {
    let mut h = PriceHistory::new(4);
    for p in 1..=10u64 {
        h.push(p);
    }
    assert_eq!(h.as_slice(), &[7, 8, 9, 10]);
    assert_eq!(h.len(), 4);
}

#[test]
fn test_quote_default_is_empty_closed_equity() {
    let q = Quote::default();
    assert!(q.symbol.is_empty());
    assert!(q.name.is_empty());
    assert_eq!((q.price_key, q.change_key, q.change_percent_key), (0, 0, 0));
    assert_eq!(q.volume, 0);
    assert_eq!(q.market_cap, None);
    assert_eq!(q.quote_type, QuoteType::Equity);
    assert_eq!(q.market_state, MarketState::Closed);
}
