use std::collections::HashMap;
use std::time::Duration;
use stonktop::app::{describe_elapsed, refresh_due, search_matches, AlertKind, App, ColorMode, Effect, StartupOptions};
use stonktop::config::ColorConfig;
use stonktop::input::{InputMode, Key, KeyCommand};
use stonktop::models::{Alert, MarketState, Quote, QuoteType, SortDirection, SortOrder};
use stonktop::sorting::sort_quotes_by;

fn quote(symbol: &str, name: &str, price: i64, change: i64, change_percent: i64) -> Quote {
    Quote {
        symbol: symbol.to_string(),
        name: name.to_string(),
        price_key: price,
        change_key: change,
        change_percent_key: change_percent,
        volume: 0,
        market_cap: None,
        quote_type: QuoteType::Equity,
        market_state: MarketState::Closed,
    }
}

fn options(symbols: &[&str]) -> StartupOptions {
    StartupOptions {
        symbols: Some(symbols.iter().map(|s| s.to_string()).collect()),
        config_symbols: Vec::new(),
        shortcuts: HashMap::new(),
        groups: Vec::new(),
        alerts: Vec::new(),
        sort: SortOrder::ChangePercent,
        config_sort_by: "change_percent".to_string(),
        reverse: false,
        holdings: false,
        config_show_holdings: false,
        config_show_fundamentals: false,
        color: ColorMode::Auto,
        color_config: ColorConfig::default(),
        verbose: false,
        batch: true,
        secure: false,
        iterations: 1,
        refresh_interval: Duration::from_secs(5),
        display_currency: "USD".to_string(),
        currency_convert: false,
    }
}

/// The application for symbols AAPL and GOOGL, seeded with two quotes
/// (prices 195 and 140, changes +3 and -2, percentages +1.5 and -1.4).
fn test_app() -> App {
    let mut app = App::build(options(&["AAPL", "GOOGL"]));
    app.domain.quotes = vec![
        quote("AAPL", "Apple", 19500, 300, 150),
        quote("GOOGL", "Alphabet", 14000, -200, -140),
    ];
    app
}

fn key(app: &mut App, c: char) -> Option<Effect> {
    app.handle_key_event(Key::Char(c), false)
}

#[test]
fn test_quit_q() {
    let mut app = test_app();
    key(&mut app, 'q');
    assert!(!app.running);
}

#[test]
fn test_quit_ctrl_c() {
    let mut app = test_app();
    app.handle_key_event(Key::Char('c'), true);
    assert!(!app.running);
}

#[test]
fn test_navigation_j_k() {
    let mut app = test_app();
    assert_eq!(app.ui.selected, 0);
    key(&mut app, 'j');
    assert_eq!(app.ui.selected, 1);
    key(&mut app, 'k');
    assert_eq!(app.ui.selected, 0);
}

#[test]
fn test_navigation_g_and_big_g() {
    let mut app = test_app();
    key(&mut app, 'G');
    assert_eq!(app.ui.selected, 1); // last
    key(&mut app, 'g');
    assert_eq!(app.ui.selected, 0); // first
}

#[test]
fn test_sort_cycle() {
    let mut app = test_app();
    let initial = app.domain.sort_order;
    key(&mut app, 's');
    assert_ne!(app.domain.sort_order, initial);
}

#[test]
fn test_sort_reverse() {
    let mut app = test_app();
    let initial = app.domain.sort_direction;
    key(&mut app, 'r');
    assert_ne!(app.domain.sort_direction, initial);
}

#[test]
fn test_sort_number_keys() {
    let mut app = test_app();
    key(&mut app, '3');
    assert_eq!(app.domain.sort_order, SortOrder::Price);
    key(&mut app, '1');
    assert_eq!(app.domain.sort_order, SortOrder::Symbol);
}

#[test]
fn test_set_sort_order_toggles_direction_on_same() {
    let mut app = test_app();
    app.set_sort_order(SortOrder::Price);
    let dir = app.domain.sort_direction;
    app.set_sort_order(SortOrder::Price);
    assert_ne!(
        app.domain.sort_direction, dir,
        "same order twice should toggle direction"
    );
}

#[test]
fn test_add_duplicate_symbol_is_noop() {
    let mut app = test_app();
    let count = app.domain.symbols.len();
    app.add_symbol("AAPL");
    assert_eq!(app.domain.symbols.len(), count);
}

#[test]
fn test_toggle_holdings() {
    let mut app = test_app();
    assert!(!app.ui.show_holdings);
    key(&mut app, 'H');
    assert!(app.ui.show_holdings);
}

#[test]
fn test_toggle_help() {
    let mut app = test_app();
    assert!(!app.ui.show_help);
    key(&mut app, 'h');
    assert!(app.ui.show_help);
}

#[test]
fn test_help_dismissal() {
    let mut app = test_app();
    app.ui.show_help = true;
    key(&mut app, 'x'); // any key
    assert!(!app.ui.show_help);
}

#[test]
fn test_error_dismissal() {
    let mut app = test_app();
    app.error = Some("test error".to_string());
    key(&mut app, 'x');
    assert!(app.error.is_none());
}

#[test]
fn test_detail_toggle() {
    let mut app = test_app();
    assert!(!app.ui.show_detail);
    app.handle_key_event(Key::Enter, false);
    assert!(app.ui.show_detail);
    // Any key dismisses
    key(&mut app, 'x');
    assert!(!app.ui.show_detail);
}

#[test]
fn test_add_symbol_mode() {
    let mut app = test_app();
    key(&mut app, 'a');
    assert_eq!(app.ui.input_mode, InputMode::AddSymbol);

    // Type "MSFT"
    key(&mut app, 'm');
    key(&mut app, 's');
    key(&mut app, 'f');
    key(&mut app, 't');
    assert_eq!(app.ui.input_buffer, "msft");

    // Enter confirms
    app.handle_key_event(Key::Enter, false);
    assert_eq!(app.ui.input_mode, InputMode::Normal);
    assert!(app.domain.symbols.contains(&"MSFT".to_string()));
}

#[test]
fn test_add_symbol_cancel() {
    let mut app = test_app();
    key(&mut app, 'a');
    key(&mut app, 'x');
    app.handle_key_event(Key::Esc, false);
    assert_eq!(app.ui.input_mode, InputMode::Normal);
    assert!(app.ui.input_buffer.is_empty());
}

#[test]
fn test_remove_symbol() {
    let mut app = test_app();
    assert_eq!(app.ui.selected, 0);
    let initial_count = app.domain.quotes.len();
    key(&mut app, 'd');
    assert_eq!(app.domain.quotes.len(), initial_count - 1);
}

// --- Navigation edge cases ---

#[test]
fn test_select_up_at_zero() {
    let mut app = test_app();
    app.ui.selected = 0;
    app.select_up();
    assert_eq!(app.ui.selected, 0);
}

#[test]
fn test_select_down_at_end() {
    let mut app = test_app();
    app.ui.selected = app.domain.quotes.len() - 1;
    app.select_down();
    assert_eq!(app.ui.selected, app.domain.quotes.len() - 1);
}

#[test]
fn test_select_top_bottom_empty() {
    let mut app = test_app();
    app.domain.quotes.clear();
    app.select_top();
    assert_eq!(app.ui.selected, 0);
    app.select_bottom();
    assert_eq!(app.ui.selected, 0);
}

#[test]
fn test_scroll_offset_updates() {
    let mut app = test_app();
    app.ui.scroll_offset = 1;
    app.ui.selected = 1;
    app.select_up(); // selected=0, should update scroll_offset
    assert_eq!(app.ui.scroll_offset, 0);
}

#[test]
fn test_select_down_scrolls_past_screen() {
    let mut app = test_app();
    app.domain.quotes = (0..30)
        .map(|i| quote(&format!("S{i}"), "n", i, 0, 0))
        .collect();
    app.ui.terminal_height = 8; // 3 rows of quotes
    for _ in 0..3 {
        app.select_down();
    }
    assert_eq!(app.ui.selected, 3);
    assert_eq!(app.ui.scroll_offset, 1);
    app.select_bottom();
    assert_eq!(app.ui.selected, 29);
    assert_eq!(app.ui.scroll_offset, 27);
}

#[test]
fn test_page_keys_move_ten_rows() {
    let mut app = test_app();
    app.domain.quotes = (0..30)
        .map(|i| quote(&format!("S{i}"), "n", i, 0, 0))
        .collect();
    app.handle_key_event(Key::PageDown, false);
    assert_eq!(app.ui.selected, 10);
    app.handle_key_event(Key::PageDown, false);
    assert_eq!(app.ui.selected, 20);
    app.handle_key_event(Key::PageDown, false);
    assert_eq!(app.ui.selected, 29);
    app.handle_key_event(Key::PageUp, false);
    assert_eq!(app.ui.selected, 19);
}

// --- Search / filter tests ---

#[test]
fn test_search_mode_enter() {
    let mut app = test_app();
    key(&mut app, '/');
    assert_eq!(app.ui.input_mode, InputMode::Search);
    assert!(app.ui.search_filter.is_empty());
}

#[test]
fn test_search_mode_type_and_filter() {
    let mut app = test_app();
    key(&mut app, '/');

    // Type "goo"
    key(&mut app, 'g');
    key(&mut app, 'o');
    key(&mut app, 'o');

    assert_eq!(app.ui.search_filter, "goo");

    let visible = app.visible_quotes();
    assert_eq!(visible.len(), 1);
    assert_eq!(visible[0].symbol, "GOOGL");
}

#[test]
fn test_search_mode_backspace() {
    let mut app = test_app();
    key(&mut app, '/');
    key(&mut app, 'x');
    key(&mut app, 'y');
    assert_eq!(app.ui.search_filter, "xy");
    app.handle_key_event(Key::Backspace, false);
    assert_eq!(app.ui.search_filter, "x");
}

#[test]
fn test_search_mode_escape_clears() {
    let mut app = test_app();
    key(&mut app, '/');
    key(&mut app, 'a');
    app.handle_key_event(Key::Esc, false);

    assert_eq!(app.ui.input_mode, InputMode::Normal);
    assert!(
        app.ui.search_filter.is_empty(),
        "Esc should clear search filter"
    );
}

#[test]
fn test_search_mode_enter_keeps_filter() {
    let mut app = test_app();
    key(&mut app, '/');
    key(&mut app, 'a');
    app.handle_key_event(Key::Enter, false);

    assert_eq!(app.ui.input_mode, InputMode::Normal);
    assert_eq!(
        app.ui.search_filter, "a",
        "Enter should keep the filter active"
    );
}

#[test]
fn test_search_filter_by_name() {
    let mut app = test_app();
    // Filter by name "Alpha" (Alphabet)
    app.ui.search_filter = "alpha".to_string();
    let visible = app.visible_quotes();
    assert_eq!(visible.len(), 1);
    assert_eq!(visible[0].symbol, "GOOGL");
}

#[test]
fn test_search_filter_no_match() {
    let mut app = test_app();
    app.ui.search_filter = "zzzzz".to_string();
    let visible = app.visible_quotes();
    assert!(visible.is_empty());
}

// --- Price alerts tests ---

#[test]
fn test_check_alerts_above_triggers() {
    let mut app = test_app();
    app.domain.alerts = vec![Alert {
        symbol: "AAPL".to_string(),
        above: Some(19000), // AAPL price is 195.0
        below: None,
    }];
    app.check_alerts();
    assert_eq!(app.domain.triggered_alerts.len(), 1);
    assert_eq!(app.domain.triggered_alerts[0].kind, AlertKind::Above);
}

#[test]
fn test_check_alerts_below_triggers() {
    let mut app = test_app();
    app.domain.alerts = vec![Alert {
        symbol: "GOOGL".to_string(),
        above: None,
        below: Some(15000), // GOOGL price is 140.0
    }];
    app.check_alerts();
    assert_eq!(app.domain.triggered_alerts.len(), 1);
    assert_eq!(app.domain.triggered_alerts[0].kind, AlertKind::Below);
}

#[test]
fn test_check_alerts_no_trigger() {
    let mut app = test_app();
    app.domain.alerts = vec![Alert {
        symbol: "AAPL".to_string(),
        above: Some(30000), // AAPL is 195, won't trigger
        below: Some(10000), // AAPL is 195, won't trigger
    }];
    app.check_alerts();
    assert!(app.domain.triggered_alerts.is_empty());
}

#[test]
fn test_check_alerts_both_directions() {
    let mut app = test_app();
    app.domain.alerts = vec![
        Alert {
            symbol: "AAPL".to_string(),
            above: Some(19000),
            below: None,
        },
        Alert {
            symbol: "GOOGL".to_string(),
            above: None,
            below: Some(15000),
        },
    ];
    app.check_alerts();
    assert_eq!(app.domain.triggered_alerts.len(), 2);
}

#[test]
fn test_check_alerts_unknown_symbol_ignored() {
    let mut app = test_app();
    app.domain.alerts = vec![Alert {
        symbol: "ZZZZ".to_string(),
        above: Some(1),
        below: None,
    }];
    app.check_alerts();
    assert!(app.domain.triggered_alerts.is_empty());
}

#[test]
fn test_check_alerts_bounds_inclusive() {
    let mut app = test_app();
    app.domain.alerts = vec![Alert {
        symbol: "AAPL".to_string(),
        above: Some(19500),
        below: Some(19500),
    }];
    app.check_alerts();
    assert_eq!(app.domain.triggered_alerts.len(), 2);
    assert_eq!(app.domain.triggered_alerts[0].kind, AlertKind::Above);
    assert_eq!(app.domain.triggered_alerts[1].kind, AlertKind::Below);
    assert_eq!(app.domain.triggered_alerts[1].alert, 0);
}

// --- Group cycling tests ---

#[test]
fn test_group_cycling_with_tab() {
    let mut app = test_app();
    app.domain.groups = vec!["All".to_string(), "tech".to_string(), "crypto".to_string()];
    app.domain.group_symbols = vec![
        vec!["AAPL".to_string(), "GOOGL".to_string()],
        vec!["AAPL".to_string()],
        vec!["BTC-USD".to_string()],
    ];
    assert_eq!(app.domain.active_group, 0);
    assert_eq!(app.active_group_name(), "All");

    app.handle_key_event(Key::Tab, false);
    assert_eq!(app.domain.active_group, 1);
    assert_eq!(app.active_group_name(), "tech");

    app.handle_key_event(Key::Tab, false);
    assert_eq!(app.domain.active_group, 2);
    assert_eq!(app.active_group_name(), "crypto");

    // Wraps around
    app.handle_key_event(Key::Tab, false);
    assert_eq!(app.domain.active_group, 0);
    assert_eq!(app.active_group_name(), "All");
}

#[test]
fn test_group_cycling_resets_selection() {
    let mut app = test_app();
    app.domain.groups = vec!["All".to_string(), "tech".to_string()];
    app.domain.group_symbols = vec![
        vec!["AAPL".to_string(), "GOOGL".to_string()],
        vec!["AAPL".to_string()],
    ];
    app.ui.selected = 1;
    app.ui.scroll_offset = 1;

    app.handle_key_event(Key::Tab, false);
    assert_eq!(app.ui.selected, 0);
    assert_eq!(app.ui.scroll_offset, 0);
}

#[test]
fn test_visible_quotes_group_filter() {
    let mut app = test_app();
    app.domain.groups = vec!["All".to_string(), "just_apple".to_string()];
    app.domain.group_symbols = vec![
        vec!["AAPL".to_string(), "GOOGL".to_string()],
        vec!["AAPL".to_string()],
    ];
    // All group
    assert_eq!(app.visible_quotes().len(), 2);

    // Switch to just_apple group
    app.domain.active_group = 1;
    let visible = app.visible_quotes();
    assert_eq!(visible.len(), 1);
    assert_eq!(visible[0].symbol, "AAPL");
}

// --- Fundamentals toggle ---

#[test]
fn test_toggle_fundamentals() {
    let mut app = test_app();
    assert!(!app.ui.show_fundamentals);
    key(&mut app, 'f');
    assert!(app.ui.show_fundamentals);
    key(&mut app, 'f');
    assert!(!app.ui.show_fundamentals);
}

// --- Secure mode restrictions ---

#[test]
fn test_secure_mode_blocks_everything_except_nav_and_quit() {
    let mut app = test_app();
    app.ui.secure_mode = true;

    // Toggles blocked
    key(&mut app, 'h');
    assert!(!app.ui.show_help, "secure mode should block help");
    key(&mut app, 'H');
    assert!(!app.ui.show_holdings, "secure mode should block holdings");
    key(&mut app, 'f');
    assert!(
        !app.ui.show_fundamentals,
        "secure mode should block fundamentals"
    );

    // Add/remove blocked
    let sym_count = app.domain.symbols.len();
    key(&mut app, 'a');
    assert_eq!(
        app.ui.input_mode,
        InputMode::Normal,
        "secure mode should block add"
    );
    key(&mut app, 'd');
    assert_eq!(
        app.domain.symbols.len(),
        sym_count,
        "secure mode should block remove"
    );

    // Sort/search blocked
    let sort = app.domain.sort_order;
    key(&mut app, 's');
    assert_eq!(app.domain.sort_order, sort, "secure mode should block sort");
    key(&mut app, '/');
    assert_eq!(
        app.ui.input_mode,
        InputMode::Normal,
        "secure mode should block search"
    );

    // Navigation still works
    assert_eq!(app.ui.selected, 0);
    key(&mut app, 'j');
    assert_eq!(app.ui.selected, 1, "secure mode should allow navigation");

    // Quit still works
    key(&mut app, 'q');
    assert!(!app.running, "secure mode should allow quit");
}

#[test]
fn test_add_symbol_syncs_group_symbols() {
    let mut app = test_app();
    let initial_all = app.domain.group_symbols[0].len();
    app.add_symbol("MSFT");
    assert!(app.domain.symbols.contains(&"MSFT".to_string()));
    assert_eq!(
        app.domain.group_symbols[0].len(),
        initial_all + 1,
        "group_symbols[0] should grow"
    );
    assert!(app.domain.group_symbols[0].contains(&"MSFT".to_string()));
}

#[test]
fn test_remove_symbol_syncs_group_symbols() {
    let mut app = test_app();
    assert!(app.domain.group_symbols[0].contains(&"AAPL".to_string()));
    app.remove_symbol("AAPL");
    assert!(!app.domain.symbols.contains(&"AAPL".to_string()));
    assert!(!app.domain.group_symbols[0].contains(&"AAPL".to_string()));
}

#[test]
fn test_add_then_remove_restores_symbols() {
    let mut app = test_app();
    let before = app.domain.symbols.clone();
    app.add_symbol("BTC");
    assert_eq!(app.domain.symbols.last().map(String::as_str), Some("BTC-USD"));
    app.remove_symbol("BTC");
    assert_eq!(app.domain.symbols, before);
}

#[test]
fn test_remove_symbol_clamps_selection() {
    let mut app = test_app();
    app.ui.selected = 1;
    app.remove_symbol("GOOGL");
    assert_eq!(app.ui.selected, 0);
}

// --- Sparkline toggle ---

#[test]
fn test_sparkline_toggle() {
    let mut app = test_app();
    assert!(!app.ui.show_sparklines);
    key(&mut app, 'S');
    assert!(app.ui.show_sparklines);
    key(&mut app, 'S');
    assert!(!app.ui.show_sparklines);
}

#[test]
fn test_sparkline_toggle_blocked_in_secure_mode() {
    let mut app = test_app();
    app.ui.secure_mode = true;
    key(&mut app, 'S');
    assert!(!app.ui.show_sparklines);
}

// --- Export / import ---

#[test]
fn test_export_key_handler() {
    let mut app = test_app();
    // 'e' asks the caller to write the export file, and changes nothing else
    assert_eq!(key(&mut app, 'e'), Some(Effect::ExportWatchlist));
    assert!(app.error.is_none());
}

#[test]
fn test_import_csv() {
    let mut app = test_app();
    app.import_csv("symbol,name\nMSFT,Microsoft\nTSLA,Tesla\n");
    assert!(app.domain.symbols.contains(&"MSFT".to_string()));
    assert!(app.domain.symbols.contains(&"TSLA".to_string()));
    assert!(app.needs_refresh());
}

#[test]
fn test_import_csv_skips_empty_lines() {
    let mut app = test_app();
    let initial = app.domain.symbols.len();
    app.import_csv("symbol\nMSFT\n\n\n");
    assert_eq!(app.domain.symbols.len(), initial + 1);
}

#[test]
fn test_import_csv_trims_and_uppercases() {
    let mut app = test_app();
    app.import_csv("symbol,name\r\n  \"nvda\" ,Nvidia\r\n\"\"\n eth\n");
    assert_eq!(
        app.domain.symbols,
        vec!["AAPL", "GOOGL", "NVDA", "ETH-USD"]
    );
}

#[test]
fn test_import_symbols_adds_each_once() {
    let mut app = test_app();
    app.import_symbols(&vec!["MSFT".to_string(), "TSLA".to_string(), "MSFT".to_string()]);
    assert_eq!(app.domain.symbols, vec!["AAPL", "GOOGL", "MSFT", "TSLA"]);
}

// --- Currency ---

#[test]
fn test_currency_symbol() {
    let mut app = test_app();
    assert_eq!(app.currency_symbol(), "$");
    app.domain.display_currency = "EUR".to_string();
    assert_eq!(app.currency_symbol(), "€");
    app.domain.display_currency = "GBP".to_string();
    assert_eq!(app.currency_symbol(), "£");
    app.domain.display_currency = "JPY".to_string();
    assert_eq!(app.currency_symbol(), "¥");
    app.domain.display_currency = "INR".to_string();
    assert_eq!(app.currency_symbol(), "₹");
    app.domain.display_currency = "BRL".to_string();
    assert_eq!(app.currency_symbol(), "R$");
    app.domain.display_currency = "UNKNOWN".to_string();
    assert_eq!(app.currency_symbol(), "$");
}

#[test]
fn test_notifications_default_enabled() {
    let app = test_app();
    assert!(app.domain.notifications_enabled);
}

// --- Refresh bookkeeping ---

#[test]
fn test_apply_refresh_sorts_counts_and_checks_alerts() {
    let mut app = App::build(options(&["AAPL", "GOOGL", "INVALID"]));
    app.domain.alerts = vec![Alert {
        symbol: "AAPL".to_string(),
        above: Some(19000),
        below: None,
    }];
    app.apply_refresh(vec![
        quote("GOOGL", "Alphabet", 14000, -200, -140),
        quote("AAPL", "Apple", 20000, 300, 150),
    ]);
    // default sort is change percent, descending
    assert_eq!(app.domain.quotes[0].symbol, "AAPL");
    assert_eq!(app.domain.failed_symbols, vec!["INVALID"]);
    assert_eq!(app.error.as_deref(), Some("Partial: 1 symbols failed"));
    assert_eq!(app.iteration, 1);
    assert!(app.should_quit());
    assert_eq!(app.domain.triggered_alerts.len(), 1, "alert should fire after refresh");
    assert!(!app.needs_refresh());
    assert_eq!(app.time_since_refresh(), "0s ago");
}

#[test]
fn test_apply_refresh_complete_clears_error() {
    let mut app = test_app();
    app.error = Some("old".to_string());
    app.apply_refresh(vec![
        quote("AAPL", "Apple", 19500, 300, 150),
        quote("GOOGL", "Alphabet", 14000, -200, -140),
    ]);
    assert!(app.error.is_none());
    assert!(app.domain.failed_symbols.is_empty());
}

#[test]
fn test_record_fetch_error() {
    let mut app = test_app();
    app.record_fetch_error("timed out");
    assert_eq!(app.error.as_deref(), Some("API Error: timed out"));
}

#[test]
fn test_never_refreshed() {
    let app = test_app();
    assert!(app.needs_refresh());
    assert_eq!(app.time_since_refresh(), "never");
}

#[test]
fn test_any_markets_open() {
    let mut app = test_app();
    assert!(!app.any_markets_open());
    app.domain.quotes[1].market_state = MarketState::Post;
    assert!(app.any_markets_open());
}

// --- Start-up ---

#[test]
fn test_build_expands_and_dedups() {
    let mut opts = options(&["BTC", "AAPL", "BTC-USD", "aapl"]);
    opts.groups = vec![("crypto".to_string(), vec!["ETH".to_string(), "SOL.X".to_string()])];
    opts.alerts = vec![Alert { symbol: "DOGE".to_string(), above: Some(1), below: None }];
    opts.config_sort_by = "price".to_string();
    opts.reverse = true;
    let app = App::build(opts);
    assert_eq!(app.domain.symbols, vec!["BTC-USD", "AAPL", "aapl"]);
    assert_eq!(app.domain.groups, vec!["All", "crypto"]);
    assert_eq!(app.domain.group_symbols[0], app.domain.symbols);
    assert_eq!(app.domain.group_symbols[1], vec!["ETH-USD", "SOL-USD"]);
    assert_eq!(app.domain.alerts[0].symbol, "DOGE-USD");
    assert_eq!(app.domain.sort_order, SortOrder::Price);
    assert_eq!(app.domain.sort_direction, SortDirection::Ascending);
    assert_eq!(app.ui.terminal_height, 24);
    assert!(app.running);
}

#[test]
fn test_build_uses_config_symbols_without_cli() {
    let mut opts = options(&[]);
    opts.symbols = None;
    opts.config_symbols = vec!["AAPL".to_string()];
    opts.sort = SortOrder::Volume;
    opts.config_sort_by = "price".to_string();
    let app = App::build(opts);
    assert_eq!(app.domain.symbols, vec!["AAPL"]);
    assert_eq!(app.domain.sort_order, SortOrder::Volume);
}

// --- Sorting ---

#[test]
fn test_sort_by_price() {
    let mut app = App::build(options(&["AAPL"]));
    app.domain.quotes.push(quote("MID", "MID", 15000, 0, 0));
    app.domain.quotes.push(quote("LOW", "LOW", 5000, 0, 0));
    app.domain.quotes.push(quote("HIGH", "HIGH", 50000, 0, 0));

    app.domain.sort_direction = SortDirection::Descending;
    app.domain.sort_order = SortOrder::Price;
    app.sort_quotes();

    let prices: Vec<i64> = app.domain.quotes.iter().map(|q| q.price_key).collect();
    assert_eq!(prices, vec![50000, 15000, 5000], "prices not descending");

    app.domain.sort_direction = SortDirection::Ascending;
    app.sort_quotes();

    let prices: Vec<i64> = app.domain.quotes.iter().map(|q| q.price_key).collect();
    assert_eq!(prices, vec![5000, 15000, 50000], "prices not ascending");
}

#[test]
fn test_sort_is_stable_and_orders_names() {
    let qs = vec![
        quote("B", "beta", 1, 0, 0),
        quote("A", "alpha", 1, 0, 0),
        quote("C", "Beta", 0, 0, 0),
    ];
    let by_price = sort_quotes_by(qs.clone(), SortOrder::Price, SortDirection::Descending);
    let syms: Vec<&str> = by_price.iter().map(|q| q.symbol.as_str()).collect();
    assert_eq!(syms, vec!["B", "A", "C"]); // equal prices keep their order
    let by_name = sort_quotes_by(qs, SortOrder::Name, SortDirection::Ascending);
    let names: Vec<&str> = by_name.iter().map(|q| q.name.as_str()).collect();
    assert_eq!(names, vec!["Beta", "alpha", "beta"]); // byte order: upper case first
}

#[test]
fn test_sort_market_cap_none_first() {
    let mut a = quote("A", "a", 0, 0, 0);
    a.market_cap = Some(5);
    let b = quote("B", "b", 0, 0, 0);
    let sorted = sort_quotes_by(vec![a, b], SortOrder::MarketCap, SortDirection::Ascending);
    assert_eq!(sorted[0].symbol, "B");
}

#[test]
fn test_import_round_trip_into_empty_watchlist() {
    let exported = vec!["AAPL".to_string(), "BTC-USD".to_string(), "MSFT".to_string()];
    let mut app = App::build(options(&[]));
    assert!(app.domain.symbols.is_empty());
    app.import_symbols(&exported);
    assert_eq!(app.domain.symbols, exported);
    assert!(app.last_refresh.is_none());
}

#[test]
fn test_iteration_limit_quits_after_n_refreshes() {
    let mut opts = options(&["AAPL"]);
    opts.iterations = 3;
    let mut app = App::build(opts);
    for k in 0..3u64 {
        assert_eq!(app.iteration, k);
        assert!(!app.should_quit());
        app.apply_refresh(vec![quote("AAPL", "Apple", 100, 0, 0)]);
    }
    assert_eq!(app.iteration, 3);
    assert!(app.should_quit());
}

#[test]
fn test_no_iteration_limit_keeps_running() {
    let mut opts = options(&["AAPL"]);
    opts.iterations = 0;
    let mut app = App::build(opts);
    for _ in 0..5 {
        app.apply_refresh(vec![quote("AAPL", "Apple", 100, 0, 0)]);
    }
    assert!(!app.should_quit());
}

#[test]
fn test_toggle_commands_twice_restore_state() {
    for cmd in [
        KeyCommand::ToggleHelp,
        KeyCommand::ToggleHoldings,
        KeyCommand::ToggleFundamentals,
        KeyCommand::ToggleDetail,
        KeyCommand::ToggleSparklines,
    ] {
        let mut app = test_app();
        let before = (
            app.ui.show_help,
            app.ui.show_holdings,
            app.ui.show_fundamentals,
            app.ui.show_detail,
            app.ui.show_sparklines,
        );
        app.handle_command(cmd);
        let mid = (
            app.ui.show_help,
            app.ui.show_holdings,
            app.ui.show_fundamentals,
            app.ui.show_detail,
            app.ui.show_sparklines,
        );
        assert_ne!(mid, before);
        app.handle_command(cmd);
        let after = (
            app.ui.show_help,
            app.ui.show_holdings,
            app.ui.show_fundamentals,
            app.ui.show_detail,
            app.ui.show_sparklines,
        );
        assert_eq!(after, before);
    }
}

#[test]
fn test_tab_once_per_group_returns_to_start() {
    let mut opts = options(&["AAPL", "BTC-USD"]);
    opts.groups = vec![
        ("tech".to_string(), vec!["AAPL".to_string()]),
        ("crypto".to_string(), vec!["BTC-USD".to_string()]),
    ];
    let mut app = App::build(opts);
    assert_eq!(app.domain.groups.len(), 3);
    app.domain.active_group = 1;
    for _ in 0..3 {
        app.handle_key_event(Key::Tab, false);
    }
    assert_eq!(app.domain.active_group, 1);
}

#[test]
fn test_refresh_due() {
    assert!(refresh_due(None, 5_000_000_000));
    assert!(!refresh_due(Some(4_999_999_999), 5_000_000_000));
    assert!(refresh_due(Some(5_000_000_000), 5_000_000_000));
    assert!(refresh_due(Some(7_000_000_000), 5_000_000_000));
}

#[test]
fn test_describe_elapsed() {
    assert_eq!(describe_elapsed(None), "never");
    assert_eq!(describe_elapsed(Some(0)), "0s ago");
    assert_eq!(describe_elapsed(Some(59)), "59s ago");
    assert_eq!(describe_elapsed(Some(60)), "1m ago");
    assert_eq!(describe_elapsed(Some(3599)), "59m ago");
}

#[test]
fn test_export_import_round_trip() {
    let app = test_app();
    let json = serde_json::to_string(&app.domain.symbols).unwrap();

    let mut app2 = test_app();
    app2.domain.symbols.clear();
    let imported: Vec<String> = serde_json::from_str(&json).unwrap();
    app2.import_symbols(&imported);
    assert_eq!(app2.domain.symbols.len(), app.domain.symbols.len());
    assert_eq!(app2.domain.symbols, app.domain.symbols);
}

#[test]
fn test_select_row_by_click() {
    let mut app = test_app();
    app.select_row(1);
    assert_eq!(app.ui.selected, 1);
    app.select_row(0);
    assert_eq!(app.ui.selected, 0);
    app.select_row(5);
    assert_eq!(app.ui.selected, 0);
}

#[test]
fn test_search_matches_symbol_or_name() {
    assert!(search_matches("AAPL", "APPLE INC", "AP"));
    assert!(search_matches("GOOGL", "ALPHABET", "ALPHA"));
    assert!(!search_matches("GOOGL", "ALPHABET", "APPLE"));
    assert!(search_matches("MSFT", "MICROSOFT", ""));
    assert!(!search_matches("msft", "MICROSOFT", "MSFT"));
}
