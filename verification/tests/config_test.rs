use stonktop::config::{
    all_symbols, default_border_color, default_currency, default_gain_color, default_header_color,
    default_loss_color, default_neutral_color, default_timeout, default_true, initial_sort_order,
    sample_config, ColorConfig, DisplayConfig, WatchlistConfig,
};
use stonktop::csv::{csv_escape_field, csv_symbols};
use stonktop::models::SortOrder;

#[test]
fn test_all_symbols_deduplication() {
    let watchlist = WatchlistConfig {
        symbols: vec!["AAPL".to_string(), "GOOGL".to_string()],
    };
    let holdings = vec!["AAPL".to_string()]; // duplicate
    let groups = vec![vec!["AAPL".to_string(), "MSFT".to_string()]];
    let symbols = all_symbols(&watchlist, &holdings, &groups);
    // AAPL should appear only once
    assert_eq!(symbols.iter().filter(|s| *s == "AAPL").count(), 1);
    assert!(symbols.contains(&"GOOGL".to_string()));
    assert!(symbols.contains(&"MSFT".to_string()));
    assert_eq!(symbols, vec!["AAPL", "GOOGL", "MSFT"]);
}

#[test]
fn test_display_and_color_defaults() {
    let d = DisplayConfig::default();
    assert!(d.show_header);
    assert!(!d.show_fundamentals);
    assert!(!d.show_holdings);
    assert!(d.show_separators);
    assert_eq!(d.sort_by, "change_percent");
    assert!(d.sort_descending);
    let c = ColorConfig::default();
    assert_eq!(c.gain, "#00ff00");
    assert_eq!(c.loss, "#ff0000");
    assert_eq!(c.neutral, "#ffffff");
    assert_eq!(c.header, "#1e90ff");
    assert_eq!(c.border, "#444444");
}

#[test]
fn test_initial_sort_order() {
    assert_eq!(initial_sort_order(SortOrder::ChangePercent, "volume"), SortOrder::Volume);
    assert_eq!(initial_sort_order(SortOrder::ChangePercent, "market_cap"), SortOrder::MarketCap);
    assert_eq!(initial_sort_order(SortOrder::ChangePercent, "change_percent"), SortOrder::ChangePercent);
    assert_eq!(initial_sort_order(SortOrder::ChangePercent, "bogus"), SortOrder::ChangePercent);
    assert_eq!(initial_sort_order(SortOrder::Name, "volume"), SortOrder::Name);
}

#[test]
fn test_sample_config_mentions_sections() {
    let sample = sample_config();
    assert!(sample.starts_with("# Stonktop Configuration File"));
    for section in ["[general]", "[watchlist]", "[[holdings]]", "[display]", "[colors]", "[groups]"] {
        assert!(sample.contains(section), "missing {section}");
    }
}

// --- CSV escape field ---

#[test]
fn test_csv_escape_field() {
    assert_eq!(csv_escape_field("simple"), "simple");
    assert_eq!(csv_escape_field("has,comma"), "\"has,comma\"");
    assert_eq!(csv_escape_field("has\"quote"), "\"has\"\"quote\"");
}

#[test]
fn test_csv_escape_line_breaks() {
    assert_eq!(csv_escape_field("a\nb"), "\"a\nb\"");
    assert_eq!(csv_escape_field("a\rb"), "\"a\rb\"");
    assert_eq!(csv_escape_field(""), "");
}

#[test]
fn test_csv_symbols_first_column() {
    assert_eq!(csv_symbols("symbol,name\nMSFT,Microsoft\nTSLA,Tesla\n"), vec!["MSFT", "TSLA"]);
    assert_eq!(csv_symbols(""), Vec::<String>::new());
    assert_eq!(csv_symbols("header only"), Vec::<String>::new());
    assert_eq!(csv_symbols("h\n\"x\"\n,y\n\t z \t\n"), vec!["x", "z"]);
}

#[test]
fn test_sample_config_valid_toml() {
    let sample = sample_config();
    let parsed: toml::Table = toml::from_str(sample).expect("sample config should be valid TOML");
    assert!(parsed.contains_key("watchlist"));
    assert!(parsed.contains_key("display"));
}

#[test]
fn test_default_settings() {
    assert_eq!(default_timeout(), 10);
    assert_eq!(default_currency(), "USD");
    assert!(default_true());
    assert_eq!(default_gain_color(), "#00ff00");
    assert_eq!(default_loss_color(), "#ff0000");
    assert_eq!(default_neutral_color(), "#ffffff");
    assert_eq!(default_header_color(), "#1e90ff");
    assert_eq!(default_border_color(), "#444444");
}
