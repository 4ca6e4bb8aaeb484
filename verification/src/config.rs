//! Configuration settings that the watchlist logic reads.
use vstd::prelude::*;
use crate::models::SortOrder;
use crate::symbols::{dedup, unique_symbols, views};
use crate::text::{copy_str, str_equal};

verus! {

/// Watchlist configuration.
#[derive(Debug, Clone, Default)]
pub struct WatchlistConfig {
    /// List of symbols to watch
    pub symbols: Vec<String>,
}

/// Display settings.
#[derive(Debug, Clone)]
pub struct DisplayConfig {
    /// Show summary header
    pub show_header: bool,
    /// Show fundamentals (open, high, low, etc.)
    pub show_fundamentals: bool,
    /// Show holdings view
    pub show_holdings: bool,
    /// Show separators between groups
    pub show_separators: bool,
    /// Default sort field
    pub sort_by: String,
    /// Sort in descending order
    pub sort_descending: bool,
}

impl Default for DisplayConfig {
    fn default() -> (r: Self)
        ensures
            r.show_header,
            !r.show_fundamentals,
            !r.show_holdings,
            r.show_separators,
            r.sort_by@ == "change_percent"@,
            r.sort_descending,
    {
        DisplayConfig {
            show_header: default_true(),
            show_fundamentals: false,
            show_holdings: false,
            show_separators: default_true(),
            sort_by: copy_str("change_percent"),
            sort_descending: default_true(),
        }
    }
}

/// Color configuration using hex codes.
#[derive(Debug, Clone)]
pub struct ColorConfig {
    /// Color for positive changes
    pub gain: String,
    /// Color for negative changes
    pub loss: String,
    /// Color for neutral/unchanged
    pub neutral: String,
    /// Header background color
    pub header: String,
    /// Border color
    pub border: String,
}

/// The API timeout, in seconds, when the configuration names none.
pub fn default_timeout() -> (r: u64)
    ensures
        r == 10,
{
    10
}

/// The display currency when the configuration names none.
pub fn default_currency() -> (r: String)
    ensures
        r@ == "USD"@,
{
    copy_str("USD")
}

/// The value of a display switch that is on unless the configuration says otherwise.
pub fn default_true() -> (r: bool)
    ensures
        r,
{
    true
}

/// The color of gains when the configuration names none.
pub fn default_gain_color() -> (r: String)
    ensures
        r@ == "#00ff00"@,
{
    copy_str("#00ff00")
}

/// The color of losses when the configuration names none.
pub fn default_loss_color() -> (r: String)
    ensures
        r@ == "#ff0000"@,
{
    copy_str("#ff0000")
}

/// The color of unchanged prices when the configuration names none.
pub fn default_neutral_color() -> (r: String)
    ensures
        r@ == "#ffffff"@,
{
    copy_str("#ffffff")
}

/// The header color when the configuration names none.
pub fn default_header_color() -> (r: String)
    ensures
        r@ == "#1e90ff"@,
{
    copy_str("#1e90ff")
}

/// The border color when the configuration names none.
pub fn default_border_color() -> (r: String)
    ensures
        r@ == "#444444"@,
{
    copy_str("#444444")
}

impl Default for ColorConfig {
    fn default() -> (r: Self)
        ensures
            r.gain@ == "#00ff00"@,
            r.loss@ == "#ff0000"@,
            r.neutral@ == "#ffffff"@,
            r.header@ == "#1e90ff"@,
            r.border@ == "#444444"@,
    {
        ColorConfig {
            gain: default_gain_color(),
            loss: default_loss_color(),
            neutral: default_neutral_color(),
            header: default_header_color(),
            border: default_border_color(),
        }
    }
}

/// The sort order a configuration file names in `display.sort_by`, if it
/// names one of those it may override.
pub open spec fn spec_config_sort_order(name: Seq<char>) -> Option<SortOrder> {
    if name == "symbol"@ {
        Some(SortOrder::Symbol)
    } else if name == "name"@ {
        Some(SortOrder::Name)
    } else if name == "price"@ {
        Some(SortOrder::Price)
    } else if name == "change"@ {
        Some(SortOrder::Change)
    } else if name == "volume"@ {
        Some(SortOrder::Volume)
    } else if name == "market_cap"@ {
        Some(SortOrder::MarketCap)
    } else {
        None
    }
}

/// The sort order in force at start-up: the command line's, unless it is the
/// default (change percent) and the configuration names another column.
pub open spec fn spec_initial_sort_order(cli: SortOrder, config_sort_by: Seq<char>) -> SortOrder {
    if cli == SortOrder::ChangePercent {
        match spec_config_sort_order(config_sort_by) {
            Some(o) => o,
            None => cli,
        }
    } else {
        cli
    }
}

/// The sort order in force at start-up: the command line's, unless it is the
/// default (change percent) and the configuration names another column.
pub fn initial_sort_order(cli: SortOrder, config_sort_by: &str) -> (r: SortOrder)
    ensures
        r == spec_initial_sort_order(cli, config_sort_by@),
{
    if cli == SortOrder::ChangePercent {
        if str_equal(config_sort_by, "symbol") {
            SortOrder::Symbol
        } else if str_equal(config_sort_by, "name") {
            SortOrder::Name
        } else if str_equal(config_sort_by, "price") {
            SortOrder::Price
        } else if str_equal(config_sort_by, "change") {
            SortOrder::Change
        } else if str_equal(config_sort_by, "volume") {
            SortOrder::Volume
        } else if str_equal(config_sort_by, "market_cap") {
            SortOrder::MarketCap
        } else {
            cli
        }
    } else {
        cli
    }
}

/// The name under which the configuration's `display.sort_by` (and the
/// sample configuration's comment) refers to each column.
pub open spec fn sort_field_name(o: SortOrder) -> Seq<char> {
    match o {
        SortOrder::Symbol => "symbol"@,
        SortOrder::Name => "name"@,
        SortOrder::Price => "price"@,
        SortOrder::Change => "change"@,
        SortOrder::ChangePercent => "change_percent"@,
        SortOrder::Volume => "volume"@,
        SortOrder::MarketCap => "market_cap"@,
    }
}

/// The start-up sort order: a configuration naming a column selects that very
/// column when the command line keeps its default; a name that is no column's
/// keeps the default; a sort order chosen on the command line always wins.
pub proof fn lemma_initial_sort_order_selects_named_column(o: SortOrder, cli: SortOrder, name: Seq<char>)
    ensures
        spec_initial_sort_order(SortOrder::ChangePercent, sort_field_name(o)) == o,
        (forall|c: SortOrder| name != #[trigger] sort_field_name(c)) ==> spec_initial_sort_order(
            SortOrder::ChangePercent,
            name,
        ) == SortOrder::ChangePercent,
        cli != SortOrder::ChangePercent ==> spec_initial_sort_order(cli, name) == cli,
{
    reveal_strlit("symbol");
    reveal_strlit("name");
    reveal_strlit("price");
    reveal_strlit("change");
    reveal_strlit("change_percent");
    reveal_strlit("volume");
    reveal_strlit("market_cap");
    assert("symbol"@[0] != "volume"@[0]);
    assert("name"@.len() != "symbol"@.len());
    assert("name"@.len() != "price"@.len());
    assert("name"@.len() != "volume"@.len());
    assert("price"@.len() != "symbol"@.len());
    assert("price"@.len() != "volume"@.len());
    assert("change"@[0] != "symbol"@[0]);
    assert("change"@.len() != "name"@.len());
    assert("change"@.len() != "price"@.len());
    assert("change"@.len() != "change_percent"@.len());
    assert("change"@[0] != "volume"@[0]);
    assert("change"@.len() != "market_cap"@.len());
    assert("change_percent"@.len() != "symbol"@.len());
    assert("change_percent"@.len() != "name"@.len());
    assert("change_percent"@.len() != "price"@.len());
    assert("change_percent"@.len() != "volume"@.len());
    assert("change_percent"@.len() != "market_cap"@.len());
    assert("market_cap"@.len() != "symbol"@.len());
    assert("market_cap"@.len() != "name"@.len());
    assert("market_cap"@.len() != "price"@.len());
    assert("market_cap"@.len() != "volume"@.len());
    if forall|c: SortOrder| name != #[trigger] sort_field_name(c) {
        assert(name != sort_field_name(SortOrder::Symbol));
        assert(name != sort_field_name(SortOrder::Name));
        assert(name != sort_field_name(SortOrder::Price));
        assert(name != sort_field_name(SortOrder::Change));
        assert(name != sort_field_name(SortOrder::Volume));
        assert(name != sort_field_name(SortOrder::MarketCap));
    }
}

/// The entries of a list of lists, in order.
pub open spec fn flatten(g: Seq<Seq<Seq<char>>>) -> Seq<Seq<char>>
    decreases g.len(),
{
    if g.len() == 0 {
        Seq::empty()
    } else {
        flatten(g.drop_last()) + g.last()
    }
}

/// Every symbol a configuration mentions: the watchlist, then the holdings,
/// then each group, without repeats and in order of first mention.
pub open spec fn spec_all_symbols(
    watchlist: Seq<Seq<char>>,
    holdings: Seq<Seq<char>>,
    groups: Seq<Seq<Seq<char>>>,
) -> Seq<Seq<char>> {
    dedup(watchlist + holdings + flatten(groups))
}

/// Get all symbols from watchlist, holdings (their symbols), and groups
/// (their symbol lists, in the order given): each once, in order of first
/// mention.
pub fn all_symbols(
    watchlist: &WatchlistConfig,
    holding_symbols: &Vec<String>,
    groups: &Vec<Vec<String>>,
) -> (r: Vec<String>)
    ensures
        views(r@) == spec_all_symbols(
            views(watchlist.symbols@),
            views(holding_symbols@),
            groups@.map_values(|v: Vec<String>| views(v@)),
        ),
{
    let mut all: Vec<String> = Vec::new();
    append_symbols(&mut all, &watchlist.symbols);
    append_symbols(&mut all, holding_symbols);
    let ghost gv = groups@.map_values(|v: Vec<String>| views(v@));
    let ghost start = views(all@);
    let mut i: usize = 0;
    while i < groups.len()
        invariant
            i <= groups.len(),
            gv == groups@.map_values(|v: Vec<String>| views(v@)),
            views(all@) == start + flatten(gv.take(i as int)),
        decreases groups.len() - i,
    {
        append_symbols(&mut all, &groups[i]);
        assert(gv.take(i + 1).drop_last() == gv.take(i as int));
        assert(start + flatten(gv.take(i + 1)) =~= start + flatten(gv.take(i as int)) + views(groups@[i as int]@));
        i = i + 1;
    }
    assert(gv.take(groups.len() as int) == gv);
    unique_symbols(&all)
}

fn append_symbols(dst: &mut Vec<String>, src: &Vec<String>)
    ensures
        views(final(dst)@) == views(old(dst)@) + views(src@),
{
    let mut i: usize = 0;
    while i < src.len()
        invariant
            i <= src.len(),
            views(dst@) == views(old(dst)@) + views(src@).take(i as int),
        decreases src.len() - i,
    {
        let c = copy_str(src[i].as_str());
        let ghost prev = views(dst@);
        dst.push(c);
        assert(views(dst@) =~= prev.push(c@));
        assert(views(src@).take(i + 1) =~= views(src@).take(i as int).push(src@[i as int]@));
        i = i + 1;
    }
    assert(views(src@).take(src.len() as int) == views(src@));
}

/// The text of the sample configuration file.
pub open spec fn sample_config_text() -> Seq<char> {
    SAMPLE@
}

/// Generate a sample configuration file content.
pub fn sample_config() -> (r: &'static str)
    ensures
        r@ == sample_config_text(),
{
    SAMPLE
}

/// The sample configuration file.
pub const SAMPLE: &'static str = r##"# Stonktop Configuration File
# A top-like terminal UI for stock and crypto prices

[general]
# Refresh interval in seconds
refresh_interval = 5.0
# API timeout in seconds
timeout = 10
# Default currency for display
currency = "USD"

[watchlist]
# Symbols to track
symbols = [
    "AAPL",
    "GOOGL",
    "MSFT",
    "AMZN",
    "NVDA",
    "BTC-USD",
    "ETH-USD",
]

# Portfolio holdings (optional)
[[holdings]]
symbol = "AAPL"
quantity = 10
cost_basis = 150.00

[[holdings]]
symbol = "BTC-USD"
quantity = 0.5
cost_basis = 30000.00

[display]
# Show summary header
show_header = true
# Show fundamental data (open, high, low)
show_fundamentals = false
# Show portfolio holdings
show_holdings = false
# Show separators between groups
show_separators = true
# Default sort field: symbol, name, price, change, change_percent, volume, market_cap
sort_by = "change_percent"
# Sort in descending order
sort_descending = true

[colors]
# Colors in hex format
gain = "#00ff00"
loss = "#ff0000"
neutral = "#ffffff"
header = "#1e90ff"
border = "#444444"

# Symbol groups (for organizing watchlists)
[groups]
tech = ["AAPL", "GOOGL", "MSFT", "NVDA"]
crypto = ["BTC-USD", "ETH-USD", "SOL-USD"]

# Price alerts (optional)
# [[alerts]]
# symbol = "AAPL"
# above = 200.00
#
# [[alerts]]
# symbol = "BTC-USD"
# below = 20000.00

# Custom symbol shortcuts (optional)
# [shortcuts]
# PEPE = "PEPE-USD"
# SHIB = "SHIB-USD"
"##;

} // verus!
