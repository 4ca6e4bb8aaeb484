use std::collections::HashMap;
use stonktop::fetch::{cache_is_fresh, chart_url, combine_results, next_step, retry_delay_ms, AttemptOutcome, NextStep};
use stonktop::models::{MarketState, QuoteType};
use stonktop::symbols::{
    expand_symbol, expand_symbol_with, is_valid_symbol, parse_market_state, parse_quote_type,
};

// --- is_valid_symbol tests ---

#[test]
fn test_valid_symbol_standard_tickers() {
    assert!(is_valid_symbol("AAPL"));
    assert!(is_valid_symbol("GOOGL"));
    assert!(is_valid_symbol("MSFT"));
    assert!(is_valid_symbol("A")); // single char
}

#[test]
fn test_valid_symbol_with_hyphen() {
    assert!(is_valid_symbol("BRK-B"));
    assert!(is_valid_symbol("BTC-USD"));
    assert!(is_valid_symbol("ETH-USD"));
}

#[test]
fn test_valid_symbol_with_dot() {
    assert!(is_valid_symbol("BRK.B"));
    assert!(is_valid_symbol("BTC.X"));
}

#[test]
fn test_valid_symbol_with_caret() {
    assert!(is_valid_symbol("^GSPC"));
    assert!(is_valid_symbol("^DJI"));
    assert!(is_valid_symbol("^IXIC"));
}

#[test]
fn test_valid_symbol_numeric() {
    assert!(is_valid_symbol("0700")); // Tencent on HKEX
    assert!(is_valid_symbol("9988")); // Alibaba on HKEX
}

#[test]
fn test_valid_symbol_max_length() {
    assert!(is_valid_symbol("ABCDEFGHIJKLMNOPQRST")); // exactly 20
}

#[test]
fn test_invalid_symbol_empty() {
    assert!(!is_valid_symbol(""));
}

#[test]
fn test_invalid_symbol_too_long() {
    assert!(!is_valid_symbol("ABCDEFGHIJKLMNOPQRSTU")); // 21 chars
}

#[test]
fn test_invalid_symbol_slash() {
    assert!(!is_valid_symbol("AAPL/USD"));
    assert!(!is_valid_symbol("../etc/passwd"));
}

#[test]
fn test_invalid_symbol_query_injection() {
    assert!(!is_valid_symbol("AAPL?foo=bar"));
    assert!(!is_valid_symbol("AAPL&extra=1"));
}

#[test]
fn test_invalid_symbol_url_encoding() {
    assert!(!is_valid_symbol("AAPL%20"));
    assert!(!is_valid_symbol("%2F%2F"));
}

#[test]
fn test_invalid_symbol_special_chars() {
    assert!(!is_valid_symbol("AAPL!"));
    assert!(!is_valid_symbol("AA@PL"));
    assert!(!is_valid_symbol("AA#PL"));
    assert!(!is_valid_symbol("AA$PL"));
    assert!(!is_valid_symbol("AA PL")); // space
    assert!(!is_valid_symbol("AA\tPL")); // tab
    assert!(!is_valid_symbol("AA\nPL")); // newline
}

#[test]
fn test_invalid_symbol_unicode() {
    assert!(!is_valid_symbol("A\u{0410}PL")); // Cyrillic A
    assert!(!is_valid_symbol("AAPL\u{200B}")); // zero-width space
}

// --- expand_symbol tests ---

#[test]
fn test_expand_symbol_crypto_shorthand() {
    assert_eq!(expand_symbol("BTC.X"), "BTC-USD");
    assert_eq!(expand_symbol("ETH.X"), "ETH-USD");
}

#[test]
fn test_expand_symbol_crypto_shortcuts() {
    assert_eq!(expand_symbol("BTC"), "BTC-USD");
    assert_eq!(expand_symbol("ETH"), "ETH-USD");
}

#[test]
fn test_expand_symbol_stock() {
    assert_eq!(expand_symbol("AAPL"), "AAPL");
    assert_eq!(expand_symbol("GOOGL"), "GOOGL");
}

#[test]
fn test_expand_symbol_all_builtins() {
    let pairs = [
        ("SOL", "SOL-USD"),
        ("ADA", "ADA-USD"),
        ("DOT", "DOT-USD"),
        ("DOGE", "DOGE-USD"),
        ("XRP", "XRP-USD"),
        ("AVAX", "AVAX-USD"),
        ("MATIC", "MATIC-USD"),
        ("LINK", "LINK-USD"),
        ("UNI", "UNI-USD"),
        ("ATOM", "ATOM-USD"),
        ("LTC", "LTC-USD"),
    ];
    for (short, full) in pairs {
        assert_eq!(expand_symbol(short), full);
    }
    // the shorthand suffix takes precedence and works on any base
    assert_eq!(expand_symbol("X.X"), "X-USD");
    assert_eq!(expand_symbol(".X"), "-USD");
    // lower case is not a shortcut
    assert_eq!(expand_symbol("btc"), "btc");
    assert_eq!(expand_symbol(""), "");
}

// --- expand_symbol_with tests (custom shortcuts) ---

#[test]
fn test_expand_symbol_with_custom_shortcut() {
    let mut custom = HashMap::new();
    custom.insert("PEPE".to_string(), "PEPE-USD".to_string());
    custom.insert("SHIB".to_string(), "SHIB-USD".to_string());
    assert_eq!(expand_symbol_with("PEPE", &custom), "PEPE-USD");
    assert_eq!(expand_symbol_with("SHIB", &custom), "SHIB-USD");
}

#[test]
fn test_expand_symbol_with_custom_overrides_builtin() {
    let mut custom = HashMap::new();
    // Override built-in BTC -> BTC-USD with custom BTC -> BTC-EUR
    custom.insert("BTC".to_string(), "BTC-EUR".to_string());
    assert_eq!(expand_symbol_with("BTC", &custom), "BTC-EUR");
}

#[test]
fn test_expand_symbol_with_falls_back_to_builtin() {
    let custom = HashMap::new();
    // No custom shortcuts; should fall back to built-in
    assert_eq!(expand_symbol_with("BTC", &custom), "BTC-USD");
    assert_eq!(expand_symbol_with("ETH", &custom), "ETH-USD");
}

#[test]
fn test_expand_symbol_with_passthrough() {
    let custom = HashMap::new();
    // Unknown symbol passes through unchanged
    assert_eq!(expand_symbol_with("AAPL", &custom), "AAPL");
}

// --- parse_market_state tests ---

#[test]
fn test_parse_market_state_pre() {
    assert_eq!(parse_market_state(Some("PRE")), MarketState::Pre);
    assert_eq!(parse_market_state(Some("PREPRE")), MarketState::Pre);
}

#[test]
fn test_parse_market_state_regular() {
    assert_eq!(parse_market_state(Some("REGULAR")), MarketState::Regular);
}

#[test]
fn test_parse_market_state_post() {
    assert_eq!(parse_market_state(Some("POST")), MarketState::Post);
    assert_eq!(parse_market_state(Some("POSTPOST")), MarketState::Post);
}

#[test]
fn test_parse_market_state_closed() {
    assert_eq!(parse_market_state(Some("CLOSED")), MarketState::Closed);
    assert_eq!(parse_market_state(None), MarketState::Closed);
}

#[test]
fn test_parse_market_state_unknown() {
    assert_eq!(parse_market_state(Some("HALTED")), MarketState::Closed);
    assert_eq!(parse_market_state(Some("")), MarketState::Closed);
}

// --- parse_quote_type tests ---

#[test]
fn test_parse_quote_type_all_variants() {
    assert_eq!(parse_quote_type(Some("EQUITY")), QuoteType::Equity);
    assert_eq!(
        parse_quote_type(Some("CRYPTOCURRENCY")),
        QuoteType::Cryptocurrency
    );
    assert_eq!(parse_quote_type(Some("ETF")), QuoteType::Etf);
    assert_eq!(parse_quote_type(Some("MUTUALFUND")), QuoteType::MutualFund);
    assert_eq!(parse_quote_type(Some("INDEX")), QuoteType::Index);
    assert_eq!(parse_quote_type(Some("CURRENCY")), QuoteType::Currency);
    assert_eq!(parse_quote_type(Some("FUTURE")), QuoteType::Future);
    assert_eq!(parse_quote_type(Some("OPTION")), QuoteType::Option);
}

#[test]
fn test_parse_quote_type_unknown_defaults_equity() {
    assert_eq!(parse_quote_type(None), QuoteType::Equity);
    assert_eq!(parse_quote_type(Some("UNKNOWN")), QuoteType::Equity);
}

// --- request building and retry policy ---

#[test]
fn test_chart_url_valid_symbol() {
    assert_eq!(
        chart_url("http://127.0.0.1:1", "AAPL").as_deref(),
        Some("http://127.0.0.1:1/AAPL?interval=1d&range=1d")
    );
    assert_eq!(
        chart_url("https://query1.finance.yahoo.com/v8/finance/chart", "BTC-USD").as_deref(),
        Some("https://query1.finance.yahoo.com/v8/finance/chart/BTC-USD?interval=1d&range=1d")
    );
}

#[test]
fn test_chart_url_rejects_unsafe_symbol() {
    assert_eq!(chart_url("http://h", "../etc/passwd"), None);
    assert_eq!(chart_url("http://h", "AAPL?x=1"), None);
    assert_eq!(chart_url("http://h", ""), None);
}

#[test]
fn test_retry_delays() {
    assert_eq!(retry_delay_ms(0), Some(100));
    assert_eq!(retry_delay_ms(1), Some(200));
    assert_eq!(retry_delay_ms(2), None);
    assert_eq!(retry_delay_ms(7), None);
}

#[test]
fn test_combine_results_partial_success() {
    let results: Vec<Result<u32, String>> = vec![Ok(1), Err("a".to_string()), Ok(3)];
    assert_eq!(combine_results(results), Ok(vec![1, 3]));
}

#[test]
fn test_combine_results_total_failure_reports_last_error() {
    let results: Vec<Result<u32, String>> = vec![Err("first".to_string()), Err("last".to_string())];
    assert_eq!(combine_results(results), Err("last".to_string()));
}

#[test]
fn test_combine_results_empty_is_ok() {
    let results: Vec<Result<u32, String>> = vec![];
    assert_eq!(combine_results(results), Ok(vec![]));
}

#[test]
fn test_next_step_delivers_a_quote() {
    assert_eq!(next_step(0, AttemptOutcome::Quote), NextStep::Deliver);
    assert_eq!(next_step(2, AttemptOutcome::Quote), NextStep::Deliver);
}

#[test]
fn test_next_step_retries_transient_failures() {
    assert_eq!(next_step(0, AttemptOutcome::BadStatus), NextStep::RetryAfter(100));
    assert_eq!(next_step(1, AttemptOutcome::Transport), NextStep::RetryAfter(200));
    assert_eq!(next_step(1, AttemptOutcome::ApiError), NextStep::RetryAfter(200));
    assert_eq!(next_step(2, AttemptOutcome::BadStatus), NextStep::Fail);
    assert_eq!(next_step(2, AttemptOutcome::Transport), NextStep::Fail);
}

#[test]
fn test_next_step_unreadable_or_empty_fails_at_once() {
    assert_eq!(next_step(0, AttemptOutcome::Unreadable), NextStep::Fail);
    assert_eq!(next_step(0, AttemptOutcome::NoData), NextStep::Fail);
}

#[test]
fn test_cache_is_fresh() {
    assert!(cache_is_fresh(1, 5_000_000_000, 1));
    assert!(!cache_is_fresh(5_000_000_000, 5_000_000_000, 1));
    assert!(!cache_is_fresh(1, 5_000_000_000, 0));
    assert!(!cache_is_fresh(0, 0, 3));
}

#[test]
fn test_expand_symbol_idempotent() {
    for s in ["BTC", "BTC.X", "DOGE", "A.X.X", "AAPL", "-USD", "LTC-USD", ".X", ""] {
        let once = expand_symbol(s);
        assert_eq!(expand_symbol(&once), once);
    }
}
