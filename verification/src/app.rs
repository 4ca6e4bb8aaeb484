//! Application state and logic: the watchlist, what is shown of it, and how
//! each command changes it.
use std::collections::HashMap;
use std::time::{Duration, Instant};
use vstd::prelude::*;
use crate::clock::{duration_nanos, duration_secs, instant_elapsed, instant_now};
use crate::config::{initial_sort_order, spec_initial_sort_order, ColorConfig};
use crate::csv::{csv_symbols, spec_csv_symbols};
use crate::input::{key_to_command, spec_key_to_command, InputMode, Key, KeyCommand};
use crate::models::{spec_next_order, spec_toggle, Alert, Quote, SortDirection, SortOrder};
use crate::sorting::{lemma_sort_idempotent, sort_quotes_by, sorted_quotes};
use crate::symbols::{contains_symbol, dedup, expand_symbol_with, spec_expand_symbol_with, unique_symbols, views};
use crate::text::{
    clear_string, copy_str, decimal, pop_char, push_char, push_decimal, push_str, seq_contains,
    spec_to_uppercase, str_contains, str_equal, to_uppercase,
};

verus! {

/// When to color the output.
#[derive(Debug, Clone, Copy, PartialEq, Eq, Structural, Default)]
pub enum ColorMode {
    #[default]
    Auto,
    Always,
    Never,
}

/// Which bound of an alert was crossed.
#[derive(Debug, Clone, Copy, PartialEq, Eq, Structural)]
pub enum AlertKind {
    /// The price reached the upper bound.
    Above,
    /// The price reached the lower bound.
    Below,
}

/// An alert whose bound the current price has reached.
#[derive(Debug, Clone)]
pub struct TriggeredAlert {
    /// The symbol of the alert.
    pub symbol: String,
    /// The position of the alert in the alert list.
    pub alert: usize,
    /// Which bound was reached.
    pub kind: AlertKind,
}

/// UI/presentation state: selection, modes, filters, and display preferences.
#[derive(Debug, Clone)]
pub struct UiState {
    pub selected: usize,
    pub scroll_offset: usize,
    pub show_help: bool,
    pub show_holdings: bool,
    pub show_fundamentals: bool,
    pub show_detail: bool,
    pub show_sparklines: bool,
    pub input_mode: InputMode,
    pub input_buffer: String,
    pub search_filter: String,
    pub color_mode: ColorMode,
    pub color_config: ColorConfig,
    pub terminal_height: u16,
    pub verbose: bool,
    pub batch_mode: bool,
    pub secure_mode: bool,
}

/// Domain / watchlist state: quotes, symbols, sorting, alerts, and groups.
#[derive(Debug, Clone)]
pub struct DomainState {
    pub quotes: Vec<Quote>,
    pub symbols: Vec<String>,
    pub sort_order: SortOrder,
    pub sort_direction: SortDirection,
    pub alerts: Vec<Alert>,
    pub triggered_alerts: Vec<TriggeredAlert>,
    pub groups: Vec<String>,
    pub group_symbols: Vec<Vec<String>>,
    pub active_group: usize,
    pub sparkline_width: usize,
    pub display_currency: String,
    pub currency_convert: bool,
    pub notifications_enabled: bool,
    /// Symbols that failed in the last partial fetch.
    pub failed_symbols: Vec<String>,
}

/// Application state: the interface and watchlist state and the runtime
/// fields that span them.
pub struct App {
    pub ui: UiState,
    pub domain: DomainState,
    /// Last refresh time; `None` asks for a refresh at the next tick.
    pub last_refresh: Option<Instant>,
    pub refresh_interval: Duration,
    pub iteration: u64,
    pub max_iterations: u64,
    pub running: bool,
    pub error: Option<String>,
    pub crypto_shortcuts: HashMap<String, String>,
}

/// What the caller of a command is asked to do outside the application state.
#[derive(Debug, Clone, Copy, PartialEq, Eq, Structural)]
pub enum Effect {
    /// Write the watchlist to the export file.
    ExportWatchlist,
}

/// The symbols of each group, by their characters.
pub open spec fn group_views(g: Seq<Vec<String>>) -> Seq<Seq<Seq<char>>> {
    g.map_values(|v: Vec<String>| views(v@))
}

/// The quote belongs to the active group (the first group, or an index out of
/// range, stands for all quotes).
pub open spec fn in_active_group(d: DomainState, q: Quote) -> bool {
    ||| d.active_group == 0
    ||| d.active_group >= d.group_symbols@.len()
    ||| views(d.group_symbols@[d.active_group as int]@).contains(q.symbol@)
}

/// The quote matches the search filter: an empty filter matches everything;
/// otherwise the upper-cased filter occurs in the symbol or in the upper-cased
/// name.
pub open spec fn matches_search(filter: Seq<char>, q: Quote) -> bool {
    ||| filter.len() == 0
    ||| spec_search_matches(q.symbol@, spec_to_uppercase(q.name@), spec_to_uppercase(filter))
}

/// The upper-cased search key occurs in the symbol or in the upper-cased name.
pub open spec fn spec_search_matches(symbol: Seq<char>, upper_name: Seq<char>, upper_key: Seq<char>) -> bool {
    seq_contains(symbol, upper_key) || seq_contains(upper_name, upper_key)
}

/// A quote matches the search key exactly when the key appears somewhere in
/// its symbol or in its upper-cased name, at any position (not only at the
/// start).
pub proof fn lemma_search_matches_anywhere(symbol: Seq<char>, upper_name: Seq<char>, upper_key: Seq<char>)
    ensures
        spec_search_matches(symbol, upper_name, upper_key) <==> (
        (exists|i: int|
            0 <= i && i + upper_key.len() <= symbol.len() && #[trigger] symbol.subrange(i, i + upper_key.len())
                == upper_key)
        || (exists|i: int|
            0 <= i && i + upper_key.len() <= upper_name.len() && #[trigger] upper_name.subrange(
                i,
                i + upper_key.len(),
            ) == upper_key)),
{
    if exists|i: int|
        0 <= i && i + upper_key.len() <= symbol.len() && #[trigger] symbol.subrange(i, i + upper_key.len())
            == upper_key {
        let i = choose|i: int|
            0 <= i && i + upper_key.len() <= symbol.len() && #[trigger] symbol.subrange(i, i + upper_key.len())
                == upper_key;
        assert(crate::text::occurs_at(symbol, upper_key, i));
    }
    if exists|i: int|
        0 <= i && i + upper_key.len() <= upper_name.len() && #[trigger] upper_name.subrange(i, i + upper_key.len())
            == upper_key {
        let i = choose|i: int|
            0 <= i && i + upper_key.len() <= upper_name.len() && #[trigger] upper_name.subrange(
                i,
                i + upper_key.len(),
            ) == upper_key;
        assert(crate::text::occurs_at(upper_name, upper_key, i));
    }
    if seq_contains(symbol, upper_key) {
        let i = choose|i: int| crate::text::occurs_at(symbol, upper_key, i);
        assert(symbol.subrange(i, i + upper_key.len()) == upper_key);
    }
    if seq_contains(upper_name, upper_key) {
        let i = choose|i: int| crate::text::occurs_at(upper_name, upper_key, i);
        assert(upper_name.subrange(i, i + upper_key.len()) == upper_key);
    }
}

/// Whether a quote with this symbol and upper-cased name matches the
/// upper-cased search key.
pub fn search_matches(symbol: &str, upper_name: &str, upper_key: &str) -> (r: bool)
    ensures
        r == spec_search_matches(symbol@, upper_name@, upper_key@),
{
    str_contains(symbol, upper_key) || str_contains(upper_name, upper_key)
}

/// The quotes shown: those of the active group that match the search filter,
/// in their current order.
pub open spec fn visible_of(d: DomainState, filter: Seq<char>) -> Seq<Quote> {
    shown_among(d.quotes@, d, filter)
}

/// The quotes of `qs`, in order, that the active group and the filter show.
pub open spec fn shown_among(qs: Seq<Quote>, d: DomainState, filter: Seq<char>) -> Seq<Quote>
    decreases qs.len(),
{
    if qs.len() == 0 {
        Seq::empty()
    } else {
        let rest = shown_among(qs.drop_last(), d, filter);
        if in_active_group(d, qs.last()) && matches_search(filter, qs.last()) {
            rest.push(qs.last())
        } else {
            rest
        }
    }
}

/// The quotes shown by the application.
pub open spec fn spec_visible(a: App) -> Seq<Quote> {
    visible_of(a.domain, a.ui.search_filter@)
}

/// `key` is the upper-cased search filter, or `None` for an empty filter.
pub open spec fn search_key_of(key: Option<String>, filter: Seq<char>) -> bool {
    match key {
        None => filter.len() == 0,
        Some(f) => filter.len() > 0 && f@ == spec_to_uppercase(filter),
    }
}

/// Rows of quotes that fit on the screen: the terminal height less five rows
/// of chrome, and at least one.
pub open spec fn visible_rows(h: u16) -> int {
    if h > 5 {
        h - 5
    } else {
        1
    }
}

/// The selection after one step up.
pub open spec fn ui_after_up(u: UiState) -> UiState {
    if u.selected > 0 {
        let s = (u.selected - 1) as usize;
        UiState { selected: s, scroll_offset: if s < u.scroll_offset { s } else { u.scroll_offset }, ..u }
    } else {
        u
    }
}

/// The selection after `k` steps up.
pub open spec fn ui_after_up_n(u: UiState, k: nat) -> UiState
    decreases k,
{
    if k == 0 {
        u
    } else {
        ui_after_up(ui_after_up_n(u, (k - 1) as nat))
    }
}

/// The last selectable position among `n` shown quotes.
pub open spec fn last_position(n: int) -> int {
    if n > 0 {
        n - 1
    } else {
        0
    }
}

/// The selection after one step down with `n` quotes shown.
pub open spec fn ui_after_down(u: UiState, n: int) -> UiState {
    if u.selected < last_position(n) {
        let s = (u.selected + 1) as usize;
        let rows = visible_rows(u.terminal_height);
        UiState {
            selected: s,
            scroll_offset: if s >= u.scroll_offset + rows {
                (s - rows + 1) as usize
            } else {
                u.scroll_offset
            },
            ..u
        }
    } else {
        u
    }
}

/// The selection after `k` steps down with `n` quotes shown.
pub open spec fn ui_after_down_n(u: UiState, n: int, k: nat) -> UiState
    decreases k,
{
    if k == 0 {
        u
    } else {
        ui_after_down(ui_after_down_n(u, n, (k - 1) as nat), n)
    }
}

/// The selection moved to the first quote.
pub open spec fn ui_after_top(u: UiState) -> UiState {
    UiState { selected: 0, scroll_offset: 0, ..u }
}

/// The selection moved to the last of `n` shown quotes.
pub open spec fn ui_after_bottom(u: UiState, n: int) -> UiState {
    let s = last_position(n) as usize;
    let rows = visible_rows(u.terminal_height);
    UiState {
        selected: s,
        scroll_offset: if s >= rows {
            (s - rows + 1) as usize
        } else {
            u.scroll_offset
        },
        ..u
    }
}

/// Everything but the interface state is the same in both.
pub open spec fn same_but_ui(a: App, b: App) -> bool {
    &&& a.domain == b.domain
    &&& a.last_refresh == b.last_refresh
    &&& a.refresh_interval == b.refresh_interval
    &&& a.iteration == b.iteration
    &&& a.max_iterations == b.max_iterations
    &&& a.running == b.running
    &&& a.error == b.error
    &&& a.crypto_shortcuts == b.crypto_shortcuts
}

/// The application should stop: it was told to quit, or it has refreshed as
/// many times as it was allowed.
pub open spec fn spec_should_quit(a: App) -> bool {
    !a.running || (a.max_iterations > 0 && a.iteration >= a.max_iterations)
}

/// How long ago the last refresh happened, as the header shows it.
pub open spec fn spec_describe_elapsed(elapsed_secs: Option<u64>) -> Seq<char> {
    match elapsed_secs {
        None => "never"@,
        Some(s) => if s < 60 {
            decimal(s as nat) + "s ago"@
        } else {
            decimal((s / 60) as nat) + "m ago"@
        },
    }
}

/// How long ago the last refresh happened: whole seconds under a minute,
/// whole minutes from then on, or "never".
pub fn describe_elapsed(elapsed_secs: Option<u64>) -> (r: String)
    ensures
        r@ == spec_describe_elapsed(elapsed_secs),
{
    match elapsed_secs {
        None => copy_str("never"),
        Some(s) => {
            let mut out = String::new();
            if s < 60 {
                push_decimal(&mut out, s);
                push_str(&mut out, "s ago");
            } else {
                push_decimal(&mut out, s / 60);
                push_str(&mut out, "m ago");
            }
            out
        },
    }
}

/// A refresh is due when none has happened (or one was asked for), or once
/// the time since the last one has reached the interval, both in nanoseconds.
pub open spec fn spec_refresh_due(elapsed_nanos: Option<u128>, interval_nanos: u128) -> bool {
    match elapsed_nanos {
        None => true,
        Some(e) => e >= interval_nanos,
    }
}

/// Whether a refresh is due, given the time since the last refresh (`None`
/// when there is none to go by) and the refresh interval.
pub fn refresh_due(elapsed_nanos: Option<u128>, interval_nanos: u128) -> (r: bool)
    ensures
        r == spec_refresh_due(elapsed_nanos, interval_nanos),
{
    match elapsed_nanos {
        None => true,
        Some(e) => e >= interval_nanos,
    }
}

/// The symbol of the display currency.
pub open spec fn spec_currency_symbol(c: Seq<char>) -> Seq<char> {
    if c == "USD"@ {
        "$"@
    } else if c == "EUR"@ {
        "€"@
    } else if c == "GBP"@ {
        "£"@
    } else if c == "JPY"@ || c == "CNY"@ {
        "¥"@
    } else if c == "KRW"@ {
        "₩"@
    } else if c == "INR"@ {
        "₹"@
    } else if c == "BRL"@ {
        "R$"@
    } else if c == "CAD"@ {
        "C$"@
    } else if c == "AUD"@ {
        "A$"@
    } else {
        "$"@
    }
}

impl App {
    /// The upper-cased search filter, when there is one.
    fn search_key(&self) -> (r: Option<String>)
        ensures
            search_key_of(r, self.ui.search_filter@),
    {
        if self.ui.search_filter.as_str().is_empty() {
            None
        } else {
            Some(to_uppercase(self.ui.search_filter.as_str()))
        }
    }

    /// Whether `q` is shown, given the upper-cased filter.
    fn is_shown(&self, q: &Quote, key: &Option<String>) -> (r: bool)
        requires
            search_key_of(*key, self.ui.search_filter@),
        ensures
            r == (in_active_group(self.domain, *q) && matches_search(self.ui.search_filter@, *q)),
    {
        let g = self.domain.active_group;
        let in_group = if g == 0 || g >= self.domain.group_symbols.len() {
            true
        } else {
            contains_symbol(&self.domain.group_symbols[g], q.symbol.as_str())
        };
        if !in_group {
            return false;
        }
        match key {
            None => true,
            Some(f) => {
                let name = to_uppercase(q.name.as_str());
                search_matches(q.symbol.as_str(), name.as_str(), f.as_str())
            },
        }
    }

    /// Get quotes filtered by the active group and search filter.
    pub fn visible_quotes(&self) -> (r: Vec<&Quote>)
        ensures
            r@.len() == spec_visible(*self).len(),
            forall|i: int| 0 <= i < r@.len() ==> *r@[i] == spec_visible(*self)[i],
    {
        let key = self.search_key();
        let mut out: Vec<&Quote> = Vec::new();
        let mut i: usize = 0;
        while i < self.domain.quotes.len()
            invariant
                i <= self.domain.quotes.len(),
                search_key_of(key, self.ui.search_filter@),
                out@.len() == shown_among(
                    self.domain.quotes@.take(i as int),
                    self.domain,
                    self.ui.search_filter@,
                ).len(),
                forall|j: int| 0 <= j < out@.len() ==> *out@[j] == shown_among(
                    self.domain.quotes@.take(i as int),
                    self.domain,
                    self.ui.search_filter@,
                )[j],
            decreases self.domain.quotes.len() - i,
        {
            let q = &self.domain.quotes[i];
            assert(self.domain.quotes@.take(i + 1).drop_last() == self.domain.quotes@.take(i as int));
            assert(self.domain.quotes@.take(i + 1).last() == *q);
            let shown = self.is_shown(q, &key);
            if shown {
                out.push(q);
            }
            i = i + 1;
        }
        assert(self.domain.quotes@.take(self.domain.quotes.len() as int) == self.domain.quotes@);
        out
    }

    /// The number of quotes shown.
    pub fn visible_count(&self) -> (r: usize)
        ensures
            r == spec_visible(*self).len(),
    {
        self.visible_quotes().len()
    }

    /// Get the currently selected quote (from visible quotes).
    pub fn selected_quote(&self) -> (r: Option<&Quote>)
        ensures
            self.ui.selected < spec_visible(*self).len() ==> (r matches Some(q) && *q
                == spec_visible(*self)[self.ui.selected as int]),
            self.ui.selected >= spec_visible(*self).len() ==> r is None,
    {
        let visible = self.visible_quotes();
        if self.ui.selected < visible.len() {
            Some(visible[self.ui.selected])
        } else {
            None
        }
    }

    /// Move selection up.
    pub fn select_up(&mut self)
        ensures
            final(self).ui == ui_after_up(old(self).ui),
            same_but_ui(*old(self), *final(self)),
    {
        if self.ui.selected > 0 {
            self.ui.selected = self.ui.selected - 1;
            if self.ui.selected < self.ui.scroll_offset {
                self.ui.scroll_offset = self.ui.selected;
            }
        }
    }

    /// Move selection down.
    pub fn select_down(&mut self)
        ensures
            final(self).ui == ui_after_down(old(self).ui, spec_visible(*old(self)).len() as int),
            same_but_ui(*old(self), *final(self)),
    {
        let n = self.visible_count();
        let max = if n > 0 { n - 1 } else { 0 };
        if self.ui.selected < max {
            self.ui.selected = self.ui.selected + 1;
            let visible_rows: usize = if self.ui.terminal_height > 5 {
                (self.ui.terminal_height - 5) as usize
            } else {
                1
            };
            if self.ui.selected >= self.ui.scroll_offset && self.ui.selected - self.ui.scroll_offset
                >= visible_rows {
                self.ui.scroll_offset = self.ui.selected - visible_rows + 1;
            }
        }
    }

    /// Move selection to top.
    pub fn select_top(&mut self)
        ensures
            final(self).ui == ui_after_top(old(self).ui),
            same_but_ui(*old(self), *final(self)),
    {
        self.ui.selected = 0;
        self.ui.scroll_offset = 0;
    }

    /// Move selection to bottom.
    pub fn select_bottom(&mut self)
        ensures
            final(self).ui == ui_after_bottom(old(self).ui, spec_visible(*old(self)).len() as int),
            same_but_ui(*old(self), *final(self)),
    {
        let n = self.visible_count();
        self.ui.selected = if n > 0 { n - 1 } else { 0 };
        let visible_rows: usize = if self.ui.terminal_height > 5 {
            (self.ui.terminal_height - 5) as usize
        } else {
            1
        };
        if self.ui.selected >= visible_rows {
            self.ui.scroll_offset = self.ui.selected - visible_rows + 1;
        }
    }

    /// Select the quote shown on row `row` of the table (counted from the
    /// first row on screen), as a mouse click does; a click below the last
    /// quote changes nothing.
    pub fn select_row(&mut self, row: usize)
        ensures
            old(self).ui.scroll_offset + row < spec_visible(*old(self)).len() ==> final(self).ui == (UiState {
                selected: (old(self).ui.scroll_offset + row) as usize,
                ..old(self).ui
            }),
            old(self).ui.scroll_offset + row >= spec_visible(*old(self)).len() ==> final(self).ui == old(self).ui,
            same_but_ui(*old(self), *final(self)),
    {
        let n = self.visible_count();
        if self.ui.scroll_offset < n && row < n - self.ui.scroll_offset {
            self.ui.selected = self.ui.scroll_offset + row;
        }
    }

    /// Toggle help display.
    pub fn toggle_help(&mut self)
        ensures
            final(self).ui == (UiState { show_help: !old(self).ui.show_help, ..old(self).ui }),
            same_but_ui(*old(self), *final(self)),
    {
        self.ui.show_help = !self.ui.show_help;
    }

    /// Toggle holdings view.
    pub fn toggle_holdings(&mut self)
        ensures
            final(self).ui == (UiState { show_holdings: !old(self).ui.show_holdings, ..old(self).ui }),
            same_but_ui(*old(self), *final(self)),
    {
        self.ui.show_holdings = !self.ui.show_holdings;
    }

    /// Toggle fundamentals display.
    pub fn toggle_fundamentals(&mut self)
        ensures
            final(self).ui == (UiState {
                show_fundamentals: !old(self).ui.show_fundamentals,
                ..old(self).ui
            }),
            same_but_ui(*old(self), *final(self)),
    {
        self.ui.show_fundamentals = !self.ui.show_fundamentals;
    }

    /// Toggle detail view for the selected quote.
    pub fn toggle_detail(&mut self)
        ensures
            final(self).ui == (UiState { show_detail: !old(self).ui.show_detail, ..old(self).ui }),
            same_but_ui(*old(self), *final(self)),
    {
        self.ui.show_detail = !self.ui.show_detail;
    }

    /// Quit the application.
    pub fn quit(&mut self)
        ensures
            *final(self) == (App { running: false, ..*old(self) }),
    {
        self.running = false;
    }

    /// Check if the application should stop.
    pub fn should_quit(&self) -> (r: bool)
        ensures
            r == spec_should_quit(*self),
    {
        !self.running || (self.max_iterations > 0 && self.iteration >= self.max_iterations)
    }

    /// Check if refresh is needed: always after a refresh was asked for, and
    /// otherwise once the refresh interval has passed, as `refresh_due` decides
    /// on the clock's reading (which is not claimed, so neither is the result
    /// in that case).
    pub fn needs_refresh(&self) -> (r: bool)
        ensures
            self.last_refresh is None ==> r,
    {
        let elapsed = match &self.last_refresh {
            None => None,
            Some(last) => Some(duration_nanos(&instant_elapsed(last))),
        };
        refresh_due(elapsed, duration_nanos(&self.refresh_interval))
    }

    /// Get time since last refresh as human readable string.
    pub fn time_since_refresh(&self) -> (r: String)
        ensures
            self.last_refresh is None ==> r@ == "never"@,
            self.last_refresh is Some ==> exists|s: u64| r@ == spec_describe_elapsed(Some(s)),
    {
        match &self.last_refresh {
            None => describe_elapsed(None),
            Some(t) => describe_elapsed(Some(duration_secs(&instant_elapsed(t)))),
        }
    }

    /// Get the active group name.
    pub fn active_group_name(&self) -> (r: &str)
        ensures
            self.domain.active_group < self.domain.groups@.len() ==> r@
                == self.domain.groups@[self.domain.active_group as int]@,
            self.domain.active_group >= self.domain.groups@.len() ==> r@ == "All"@,
    {
        if self.domain.active_group < self.domain.groups.len() {
            self.domain.groups[self.domain.active_group].as_str()
        } else {
            "All"
        }
    }

    /// Whether any quote's market is trading (pre-market, regular or post-market).
    pub fn any_markets_open(&self) -> (r: bool)
        ensures
            r == exists|i: int|
                0 <= i < self.domain.quotes@.len() && (#[trigger] self.domain.quotes@[i]).market_state
                    != crate::models::MarketState::Closed,
    {
        let mut i: usize = 0;
        while i < self.domain.quotes.len()
            invariant
                i <= self.domain.quotes.len(),
                forall|j: int| 0 <= j < i ==> (#[trigger] self.domain.quotes@[j]).market_state
                    == crate::models::MarketState::Closed,
            decreases self.domain.quotes.len() - i,
        {
            if self.domain.quotes[i].market_state.is_open() {
                return true;
            }
            i = i + 1;
        }
        false
    }

    /// Get the display currency symbol.
    pub fn currency_symbol(&self) -> (r: &str)
        ensures
            r@ == spec_currency_symbol(self.domain.display_currency@),
    {
        let c = self.domain.display_currency.as_str();
        if str_equal(c, "USD") {
            "$"
        } else if str_equal(c, "EUR") {
            "€"
        } else if str_equal(c, "GBP") {
            "£"
        } else if str_equal(c, "JPY") || str_equal(c, "CNY") {
            "¥"
        } else if str_equal(c, "KRW") {
            "₩"
        } else if str_equal(c, "INR") {
            "₹"
        } else if str_equal(c, "BRL") {
            "R$"
        } else if str_equal(c, "CAD") {
            "C$"
        } else if str_equal(c, "AUD") {
            "A$"
        } else {
            "$"
        }
    }
}

/// Everything but the watchlist state is the same in both.
pub open spec fn same_but_domain(a: App, b: App) -> bool {
    &&& a.ui == b.ui
    &&& a.last_refresh == b.last_refresh
    &&& a.refresh_interval == b.refresh_interval
    &&& a.iteration == b.iteration
    &&& a.max_iterations == b.max_iterations
    &&& a.running == b.running
    &&& a.error == b.error
    &&& a.crypto_shortcuts == b.crypto_shortcuts
}

/// `b` holds the quotes `quotes` under the given sort settings, and
/// otherwise the watchlist state of `a`.
pub open spec fn resorted(a: DomainState, b: DomainState, order: SortOrder, dir: SortDirection, quotes: Seq<Quote>) -> bool {
    &&& b == (DomainState { quotes: b.quotes, sort_order: order, sort_direction: dir, ..a })
    &&& b.quotes@ == quotes
}

/// The symbol list with `e` appended unless it is already there.
pub open spec fn with_symbol(s: Seq<Seq<char>>, e: Seq<char>) -> Seq<Seq<char>> {
    if s.contains(e) {
        s
    } else {
        s.push(e)
    }
}

/// The watchlist state `b` is `a` with the symbol `sym` added: the symbol,
/// expanded by the shortcuts, is appended to the symbol list and to the
/// first group unless the symbol list holds it already.
pub open spec fn added_symbol(a: DomainState, shortcuts: Map<Seq<char>, Seq<char>>, sym: Seq<char>, b: DomainState) -> bool {
    let e = spec_expand_symbol_with(shortcuts, sym);
    if views(a.symbols@).contains(e) {
        b == a
    } else {
        &&& b == (DomainState { symbols: b.symbols, group_symbols: b.group_symbols, ..a })
        &&& views(b.symbols@) == views(a.symbols@).push(e)
        &&& group_views(b.group_symbols@) == (if a.group_symbols@.len() > 0 {
            group_views(a.group_symbols@).update(0, group_views(a.group_symbols@)[0].push(e))
        } else {
            group_views(a.group_symbols@)
        })
    }
}

/// `s` without the entries equal to `e`.
pub open spec fn without(s: Seq<Seq<char>>, e: Seq<char>) -> Seq<Seq<char>>
    decreases s.len(),
{
    if s.len() == 0 {
        Seq::empty()
    } else if s.last() == e {
        without(s.drop_last(), e)
    } else {
        without(s.drop_last(), e).push(s.last())
    }
}

/// The quotes of `qs` whose symbol is not `e`.
pub open spec fn quotes_without(qs: Seq<Quote>, e: Seq<char>) -> Seq<Quote>
    decreases qs.len(),
{
    if qs.len() == 0 {
        Seq::empty()
    } else if qs.last().symbol@ == e {
        quotes_without(qs.drop_last(), e)
    } else {
        quotes_without(qs.drop_last(), e).push(qs.last())
    }
}

/// The watchlist state `b` is `a` with the symbol `sym`, expanded by the
/// shortcuts, removed from the symbol list, the quotes and every group.
pub open spec fn removed_symbol(a: DomainState, shortcuts: Map<Seq<char>, Seq<char>>, sym: Seq<char>, b: DomainState) -> bool {
    let e = spec_expand_symbol_with(shortcuts, sym);
    &&& b == (DomainState { symbols: b.symbols, quotes: b.quotes, group_symbols: b.group_symbols, ..a })
    &&& views(b.symbols@) == without(views(a.symbols@), e)
    &&& b.quotes@ == quotes_without(a.quotes@, e)
    &&& group_views(b.group_symbols@).len() == a.group_symbols@.len()
    &&& forall|i: int| 0 <= i < a.group_symbols@.len() ==> #[trigger] group_views(b.group_symbols@)[i] == without(group_views(a.group_symbols@)[i], e)
}

/// The selection kept within `n` shown quotes after some were removed.
pub open spec fn clamp_selection(selected: usize, n: int) -> usize {
    if selected >= n {
        last_position(n) as usize
    } else {
        selected
    }
}

/// `b` is `a` after the symbol `sym` was removed from the watch.
pub open spec fn remove_symbol_post(a: App, b: App, sym: Seq<char>) -> bool {
    &&& removed_symbol(a.domain, a.crypto_shortcuts.deep_view(), sym, b.domain)
    &&& b.ui == (UiState { selected: clamp_selection(a.ui.selected, spec_visible(b).len() as int), ..a.ui })
    &&& b.last_refresh == a.last_refresh
    &&& b.refresh_interval == a.refresh_interval
    &&& b.iteration == a.iteration
    &&& b.max_iterations == a.max_iterations
    &&& b.running == a.running
    &&& b.error == a.error
    &&& b.crypto_shortcuts == a.crypto_shortcuts
}

fn without_symbol(v: Vec<String>, e: &str) -> (r: Vec<String>)
    ensures
        views(r@) == without(views(v@), e@),
{
    let ghost orig = v@;
    let mut rest = v;
    let mut out: Vec<String> = Vec::new();
    let mut k: usize = 0;
    assert(orig.skip(0) == orig);
    assert(orig.len() == rest.len());
    while rest.len() > 0
        invariant
            k + rest.len() == orig.len(),
            orig.len() <= usize::MAX,
            rest@ == orig.skip(k as int),
            views(out@) == without(views(orig.take(k as int)), e@),
        decreases rest.len(),
    {
        let x = rest.remove(0);
        assert(views(orig.take(k + 1)).drop_last() == views(orig.take(k as int)));
        assert(views(orig.take(k + 1)).last() == x@);
        assert(rest@ == orig.skip(k + 1));
        if !str_equal(x.as_str(), e) {
            out.push(x);
            assert(views(out@) == views(out@).drop_last().push(x@));
        }
        k = k + 1;
    }
    assert(orig.take(orig.len() as int) == orig);
    out
}

fn without_quote(v: Vec<Quote>, e: &str) -> (r: Vec<Quote>)
    ensures
        r@ == quotes_without(v@, e@),
{
    let ghost orig = v@;
    let mut rest = v;
    let mut out: Vec<Quote> = Vec::new();
    let mut k: usize = 0;
    assert(orig.skip(0) == orig);
    assert(orig.len() == rest.len());
    while rest.len() > 0
        invariant
            k + rest.len() == orig.len(),
            orig.len() <= usize::MAX,
            rest@ == orig.skip(k as int),
            out@ == quotes_without(orig.take(k as int), e@),
        decreases rest.len(),
    {
        let x = rest.remove(0);
        assert(orig.take(k + 1).drop_last() == orig.take(k as int));
        assert(orig.take(k + 1).last() == x);
        assert(rest@ == orig.skip(k + 1));
        if !str_equal(x.symbol.as_str(), e) {
            out.push(x);
        }
        k = k + 1;
    }
    assert(orig.take(orig.len() as int) == orig);
    out
}

impl App {
    /// Sort quotes according to current sort settings.
    pub fn sort_quotes(&mut self)
        ensures
            resorted(old(self).domain, final(self).domain, old(self).domain.sort_order, old(self).domain.sort_direction,
                sorted_quotes(old(self).domain.quotes@, old(self).domain.sort_order, old(self).domain.sort_direction)),
            same_but_domain(*old(self), *final(self)),
    {
        let mut quotes: Vec<Quote> = Vec::new();
        std::mem::swap(&mut quotes, &mut self.domain.quotes);
        let sorted = sort_quotes_by(quotes, self.domain.sort_order, self.domain.sort_direction);
        self.domain.quotes = sorted;
    }

    /// Toggle sort direction, and sort again.
    pub fn toggle_sort_direction(&mut self)
        ensures
            resorted(old(self).domain, final(self).domain, old(self).domain.sort_order, spec_toggle(old(self).domain.sort_direction),
                sorted_quotes(old(self).domain.quotes@, old(self).domain.sort_order, spec_toggle(old(self).domain.sort_direction))),
            same_but_domain(*old(self), *final(self)),
    {
        self.domain.sort_direction = self.domain.sort_direction.toggle();
        self.sort_quotes();
    }

    /// Cycle to next sort order, and sort again.
    pub fn next_sort_order(&mut self)
        ensures
            resorted(old(self).domain, final(self).domain, spec_next_order(old(self).domain.sort_order), old(self).domain.sort_direction,
                sorted_quotes(old(self).domain.quotes@, spec_next_order(old(self).domain.sort_order), old(self).domain.sort_direction)),
            same_but_domain(*old(self), *final(self)),
    {
        self.domain.sort_order = self.domain.sort_order.next();
        self.sort_quotes();
    }

    /// Set a specific sort order: choosing the current one again reverses the
    /// direction; choosing another one sorts by it in descending order.
    pub fn set_sort_order(&mut self, order: SortOrder)
        ensures
            set_sort_order_post(*old(self), *final(self), order),
    {
        if self.domain.sort_order == order {
            self.toggle_sort_direction();
            proof {
                lemma_sort_idempotent(old(self).domain.quotes@, order, self.domain.sort_direction);
            }
        } else {
            self.domain.sort_order = order;
            self.domain.sort_direction = SortDirection::Descending;
        }
        self.sort_quotes();
    }

    /// Add a symbol to watch: the symbol, expanded by the shortcuts, joins the
    /// symbol list and the first group unless it is watched already.
    pub fn add_symbol(&mut self, symbol: &str)
        ensures
            added_symbol(old(self).domain, old(self).crypto_shortcuts.deep_view(), symbol@, final(self).domain),
            same_but_domain(*old(self), *final(self)),
    {
        let expanded = expand_symbol_with(symbol, &self.crypto_shortcuts);
        if !contains_symbol(&self.domain.symbols, expanded.as_str()) {
            let copy = copy_str(expanded.as_str());
            self.domain.symbols.push(copy);
            assert(views(self.domain.symbols@) == views(old(self).domain.symbols@).push(expanded@));
            if self.domain.group_symbols.len() > 0 {
                let ghost g_old = self.domain.group_symbols@;
                let mut first = self.domain.group_symbols.remove(0);
                first.push(expanded);
                assert(views(first@) =~= views(g_old[0]@).push(expanded@));
                self.domain.group_symbols.insert(0, first);
                assert(self.domain.group_symbols@ =~= g_old.update(0, self.domain.group_symbols@[0]));
                assert(group_views(self.domain.group_symbols@) =~= group_views(old(self).domain.group_symbols@).update(
                    0, group_views(old(self).domain.group_symbols@)[0].push(expanded@)));
            }
        }
    }

    /// Remove a symbol from watch: the symbol, expanded by the shortcuts, leaves
    /// the symbol list, the quotes and every group, and the selection is kept
    /// within the quotes still shown.
    pub fn remove_symbol(&mut self, symbol: &str)
        ensures
            remove_symbol_post(*old(self), *final(self), symbol@),
    {
        let expanded = expand_symbol_with(symbol, &self.crypto_shortcuts);
        let mut symbols: Vec<String> = Vec::new();
        std::mem::swap(&mut symbols, &mut self.domain.symbols);
        self.domain.symbols = without_symbol(symbols, expanded.as_str());
        let mut quotes: Vec<Quote> = Vec::new();
        std::mem::swap(&mut quotes, &mut self.domain.quotes);
        self.domain.quotes = without_quote(quotes, expanded.as_str());
        let mut groups: Vec<Vec<String>> = Vec::new();
        std::mem::swap(&mut groups, &mut self.domain.group_symbols);
        let ghost orig = groups@;
        let mut kept: Vec<Vec<String>> = Vec::new();
        let mut k: usize = 0;
        assert(orig.skip(0) == orig);
        assert(orig.len() == groups.len());
        while groups.len() > 0
            invariant
                k + groups.len() == orig.len(),
                orig.len() <= usize::MAX,
                groups@ == orig.skip(k as int),
                kept@.len() == k,
                forall|i: int| 0 <= i < k ==> views(#[trigger] kept@[i]@) == without(views(orig[i]@), expanded@),
            decreases groups.len(),
        {
            let g = groups.remove(0);
            assert(g == orig[k as int]);
            assert(groups@ == orig.skip(k + 1));
            kept.push(without_symbol(g, expanded.as_str()));
            k = k + 1;
        }
        self.domain.group_symbols = kept;
        assert forall|i: int| 0 <= i < orig.len() implies #[trigger] group_views(self.domain.group_symbols@)[i]
            == without(group_views(orig)[i], expanded@) by {}
        let n = self.visible_count();
        if self.ui.selected >= n {
            self.ui.selected = if n > 0 { n - 1 } else { 0 };
        }
    }
}

/// The first quote, in list order, with the symbol `sym`.
pub open spec fn first_quote(qs: Seq<Quote>, sym: Seq<char>) -> Option<Quote>
    decreases qs.len(),
{
    if qs.len() == 0 {
        None
    } else if qs[0].symbol@ == sym {
        Some(qs[0])
    } else {
        first_quote(qs.drop_first(), sym)
    }
}

/// A triggered alert as a triple: symbol, position of the alert, bound.
pub open spec fn triggered_view(t: TriggeredAlert) -> (Seq<char>, int, AlertKind) {
    (t.symbol@, t.alert as int, t.kind)
}

/// What the alert at position `i` reports against the quotes: nothing when no
/// quote has its symbol; otherwise, for the first such quote, the upper bound
/// when the price is at or above it, then the lower bound when the price is at
/// or below it.
pub open spec fn alert_hits(a: Alert, i: int, qs: Seq<Quote>) -> Seq<(Seq<char>, int, AlertKind)> {
    match first_quote(qs, a.symbol@) {
        None => Seq::empty(),
        Some(q) => {
            let up = match a.above {
                Some(t) => if q.price_key >= t {
                    seq![(a.symbol@, i, AlertKind::Above)]
                } else {
                    Seq::empty()
                },
                None => Seq::empty(),
            };
            let down = match a.below {
                Some(t) => if q.price_key <= t {
                    seq![(a.symbol@, i, AlertKind::Below)]
                } else {
                    Seq::empty()
                },
                None => Seq::empty(),
            };
            up + down
        },
    }
}

/// Every report of the alerts against the quotes, alert by alert.
pub open spec fn spec_triggered(alerts: Seq<Alert>, qs: Seq<Quote>) -> Seq<(Seq<char>, int, AlertKind)>
    decreases alerts.len(),
{
    if alerts.len() == 0 {
        Seq::empty()
    } else {
        spec_triggered(alerts.drop_last(), qs) + alert_hits(alerts.last(), alerts.len() - 1, qs)
    }
}

/// Whether some quote has the symbol `s`.
pub open spec fn has_quote(qs: Seq<Quote>, s: Seq<char>) -> bool {
    exists|i: int| 0 <= i < qs.len() && (#[trigger] qs[i]).symbol@ == s
}

/// The symbols that no quote answers, in watch order.
pub open spec fn missing_symbols(syms: Seq<Seq<char>>, qs: Seq<Quote>) -> Seq<Seq<char>>
    decreases syms.len(),
{
    if syms.len() == 0 {
        Seq::empty()
    } else {
        let rest = missing_symbols(syms.drop_last(), qs);
        if has_quote(qs, syms.last()) {
            rest
        } else {
            rest.push(syms.last())
        }
    }
}

/// The banner shown after a fetch in which some symbols got no quote.
pub open spec fn partial_message(n: nat) -> Seq<char> {
    "Partial: "@ + decimal(n) + " symbols failed"@
}

fn find_quote(qs: &Vec<Quote>, sym: &str) -> (r: Option<usize>)
    ensures
        match r {
            Some(i) => i < qs@.len() && first_quote(qs@, sym@) == Some(qs@[i as int]),
            None => first_quote(qs@, sym@) is None,
        },
{
    let mut i: usize = 0;
    assert(qs@.skip(0) == qs@);
    while i < qs.len()
        invariant
            i <= qs.len(),
            first_quote(qs@, sym@) == first_quote(qs@.skip(i as int), sym@),
        decreases qs.len() - i,
    {
        assert(qs@.skip(i as int)[0] == qs@[i as int]);
        if str_equal(qs[i].symbol.as_str(), sym) {
            return Some(i);
        }
        assert(qs@.skip(i as int).drop_first() == qs@.skip(i + 1));
        i = i + 1;
    }
    assert(qs@.skip(i as int).len() == 0);
    None
}

fn quote_present(qs: &Vec<Quote>, sym: &str) -> (r: bool)
    ensures
        r == has_quote(qs@, sym@),
{
    let mut i: usize = 0;
    while i < qs.len()
        invariant
            i <= qs.len(),
            forall|j: int| 0 <= j < i ==> (#[trigger] qs@[j]).symbol@ != sym@,
        decreases qs.len() - i,
    {
        if str_equal(qs[i].symbol.as_str(), sym) {
            return true;
        }
        i = i + 1;
    }
    false
}

impl App {
    /// Check price alerts and record the ones that trigger.
    pub fn check_alerts(&mut self)
        ensures
            final(self).domain == (DomainState { triggered_alerts: final(self).domain.triggered_alerts, ..old(self).domain }),
            final(self).domain.triggered_alerts@.map_values(|t: TriggeredAlert| triggered_view(t))
                == spec_triggered(old(self).domain.alerts@, old(self).domain.quotes@),
            same_but_domain(*old(self), *final(self)),
    {
        let mut out: Vec<TriggeredAlert> = Vec::new();
        let mut i: usize = 0;
        while i < self.domain.alerts.len()
            invariant
                i <= self.domain.alerts.len(),
                self.domain == old(self).domain,
                out@.map_values(|t: TriggeredAlert| triggered_view(t)) == spec_triggered(
                    self.domain.alerts@.take(i as int),
                    self.domain.quotes@,
                ),
            decreases self.domain.alerts.len() - i,
        {
            let alert = &self.domain.alerts[i];
            let ghost before = out@.map_values(|t: TriggeredAlert| triggered_view(t));
            assert(self.domain.alerts@.take(i + 1).drop_last() == self.domain.alerts@.take(i as int));
            assert(self.domain.alerts@.take(i + 1).last() == *alert);
            match find_quote(&self.domain.quotes, alert.symbol.as_str()) {
                Some(k) => {
                    let price = self.domain.quotes[k].price_key;
                    let ghost mid = before;
                    if let Some(above) = alert.above {
                        if price >= above {
                            let t = TriggeredAlert { symbol: copy_str(alert.symbol.as_str()), alert: i, kind: AlertKind::Above };
                            out.push(t);
                            assert(out@.map_values(|t: TriggeredAlert| triggered_view(t)) =~= before.push(triggered_view(t)));
                        }
                    }
                    let ghost after_up = out@.map_values(|t: TriggeredAlert| triggered_view(t));
                    if let Some(below) = alert.below {
                        if price <= below {
                            let t = TriggeredAlert { symbol: copy_str(alert.symbol.as_str()), alert: i, kind: AlertKind::Below };
                            out.push(t);
                            assert(out@.map_values(|t: TriggeredAlert| triggered_view(t)) =~= after_up.push(triggered_view(t)));
                        }
                    }
                    assert(out@.map_values(|t: TriggeredAlert| triggered_view(t)) =~= before + alert_hits(*alert, i as int, self.domain.quotes@));
                },
                None => {
                    assert(alert_hits(*alert, i as int, self.domain.quotes@) =~= Seq::<(Seq<char>, int, AlertKind)>::empty());
                    assert(before + alert_hits(*alert, i as int, self.domain.quotes@) =~= before);
                },
            }
            i = i + 1;
        }
        assert(self.domain.alerts@.take(self.domain.alerts.len() as int) == self.domain.alerts@);
        self.domain.triggered_alerts = out;
    }
}

impl App {
    /// Take in the quotes of a successful fetch: note the symbols that got no
    /// quote, sort the quotes, check the alerts, stamp the refresh time, count
    /// the refresh, and set or clear the error banner.
    pub fn apply_refresh(&mut self, quotes: Vec<Quote>)
        requires
            old(self).iteration < u64::MAX,
        ensures
            views(final(self).domain.failed_symbols@) == missing_symbols(views(old(self).domain.symbols@), quotes@),
            final(self).domain.quotes@ == sorted_quotes(quotes@, old(self).domain.sort_order, old(self).domain.sort_direction),
            final(self).domain.triggered_alerts@.map_values(|t: TriggeredAlert| triggered_view(t))
                == spec_triggered(old(self).domain.alerts@, final(self).domain.quotes@),
            final(self).domain == (DomainState {
                quotes: final(self).domain.quotes,
                failed_symbols: final(self).domain.failed_symbols,
                triggered_alerts: final(self).domain.triggered_alerts,
                ..old(self).domain
            }),
            final(self).last_refresh is Some,
            final(self).iteration == old(self).iteration + 1,
            missing_symbols(views(old(self).domain.symbols@), quotes@).len() == 0 ==> final(self).error is None,
            missing_symbols(views(old(self).domain.symbols@), quotes@).len() > 0 ==> (final(self).error matches Some(m)
                && m@ == partial_message(missing_symbols(views(old(self).domain.symbols@), quotes@).len())),
            final(self).ui == old(self).ui,
            final(self).refresh_interval == old(self).refresh_interval,
            final(self).max_iterations == old(self).max_iterations,
            final(self).running == old(self).running,
            final(self).crypto_shortcuts == old(self).crypto_shortcuts,
    {
        let mut failed: Vec<String> = Vec::new();
        let mut i: usize = 0;
        while i < self.domain.symbols.len()
            invariant
                i <= self.domain.symbols.len(),
                self.domain == old(self).domain,
                views(failed@) == missing_symbols(views(self.domain.symbols@).take(i as int), quotes@),
            decreases self.domain.symbols.len() - i,
        {
            let sym = self.domain.symbols[i].as_str();
            assert(views(self.domain.symbols@).take(i + 1).drop_last() == views(self.domain.symbols@).take(i as int));
            assert(views(self.domain.symbols@).take(i + 1).last() == sym@);
            if !quote_present(&quotes, sym) {
                let c = copy_str(sym);
                failed.push(c);
                assert(views(failed@) == views(failed@).drop_last().push(c@));
            }
            i = i + 1;
        }
        assert(views(self.domain.symbols@).take(self.domain.symbols.len() as int) == views(self.domain.symbols@));
        let n_failed = failed.len();
        self.domain.failed_symbols = failed;
        self.domain.quotes = quotes;
        self.sort_quotes();
        self.check_alerts();
        self.last_refresh = Some(instant_now());
        self.iteration = self.iteration + 1;
        if n_failed == 0 {
            self.error = None;
        } else {
            let mut m = String::new();
            push_str(&mut m, "Partial: ");
            push_decimal(&mut m, n_failed as u64);
            push_str(&mut m, " symbols failed");
            self.error = Some(m);
        }
    }

    /// Record a fetch in which no quote came back: the error banner shows the
    /// failure.
    pub fn record_fetch_error(&mut self, message: &str)
        ensures
            final(self).error matches Some(m) && m@ == "API Error: "@ + message@,
            *final(self) == (App { error: final(self).error, ..*old(self) }),
    {
        let mut m = String::new();
        push_str(&mut m, "API Error: ");
        push_str(&mut m, message);
        self.error = Some(m);
    }
}

/// `b` is `a` with the interface state `u`.
pub open spec fn with_ui(a: App, b: App, u: UiState) -> bool {
    b == (App { ui: u, ..a })
}

/// `b` is `a` with the watchlist re-sorted by `order` and `dir`, the quotes
/// becoming `quotes`.
pub open spec fn resorted_app(a: App, b: App, order: SortOrder, dir: SortDirection, quotes: Seq<Quote>) -> bool {
    &&& resorted(a.domain, b.domain, order, dir, quotes)
    &&& same_but_domain(a, b)
}

/// `b` is `a` after the sort order was set to `order`: the same order again
/// reverses the direction; another order sorts descending by it.
pub open spec fn set_sort_order_post(a: App, b: App, order: SortOrder) -> bool {
    let dir = if order == a.domain.sort_order {
        spec_toggle(a.domain.sort_direction)
    } else {
        SortDirection::Descending
    };
    resorted_app(a, b, order, dir, sorted_quotes(a.domain.quotes@, order, dir))
}

/// `b` is `a` after the symbol typed in add mode, upper-cased, was added: the
/// input buffer is emptied, the mode returns to normal, and a refresh is asked for.
pub open spec fn confirm_add_post(a: App, b: App) -> bool {
    &&& added_symbol(a.domain, a.crypto_shortcuts.deep_view(), spec_to_uppercase(a.ui.input_buffer@), b.domain)
    &&& b.ui == (UiState { input_buffer: b.ui.input_buffer, input_mode: InputMode::Normal, ..a.ui })
    &&& b.ui.input_buffer@.len() == 0
    &&& b == (App { ui: b.ui, domain: b.domain, last_refresh: None, ..a })
}

/// `b` is `a` with the text typed in the current mode edited: the search
/// filter (which also resets the selection) or the add buffer becomes
/// `edited` of its old characters; in normal mode nothing changes.
pub open spec fn typed_post(a: App, b: App, edited: spec_fn(Seq<char>) -> Seq<char>) -> bool {
    if a.ui.input_mode == InputMode::Search {
        &&& b == (App { ui: b.ui, ..a })
        &&& b.ui == (UiState { search_filter: b.ui.search_filter, selected: 0, ..a.ui })
        &&& b.ui.search_filter@ == edited(a.ui.search_filter@)
    } else if a.ui.input_mode == InputMode::AddSymbol {
        &&& b == (App { ui: b.ui, ..a })
        &&& b.ui == (UiState { input_buffer: b.ui.input_buffer, ..a.ui })
        &&& b.ui.input_buffer@ == edited(a.ui.input_buffer@)
    } else {
        b == a
    }
}

/// `s` without its last character, if it has one.
pub open spec fn drop_last_char(s: Seq<char>) -> Seq<char> {
    if s.len() > 0 {
        s.drop_last()
    } else {
        s
    }
}

/// The number of steps one page moves the selection.
pub open spec fn page_steps() -> nat {
    10
}

/// What running command `cmd` does to the application state `a`, giving `b`.
pub open spec fn command_post(a: App, b: App, cmd: KeyCommand) -> bool {
    let n = spec_visible(a).len() as int;
    match cmd {
        KeyCommand::DismissAnyOverlay => if a.ui.show_detail {
            with_ui(a, b, UiState { show_detail: false, ..a.ui })
        } else if a.ui.show_help {
            with_ui(a, b, UiState { show_help: false, ..a.ui })
        } else if a.error is Some {
            b == (App { error: None, ..a })
        } else {
            b == a
        },
        KeyCommand::InputConfirm => if a.ui.input_mode == InputMode::AddSymbol {
            if a.ui.input_buffer@.len() > 0 {
                confirm_add_post(a, b)
            } else {
                with_ui(a, b, UiState { input_mode: InputMode::Normal, ..a.ui })
            }
        } else if a.ui.input_mode == InputMode::Search {
            with_ui(a, b, UiState { input_mode: InputMode::Normal, selected: 0, scroll_offset: 0, ..a.ui })
        } else {
            b == a
        },
        KeyCommand::InputCancel => if a.ui.input_mode == InputMode::Search {
            &&& b == (App { ui: b.ui, ..a })
            &&& b.ui == (UiState { search_filter: b.ui.search_filter, input_mode: InputMode::Normal, ..a.ui })
            &&& b.ui.search_filter@.len() == 0
        } else if a.ui.input_mode == InputMode::AddSymbol {
            &&& b == (App { ui: b.ui, ..a })
            &&& b.ui == (UiState { input_buffer: b.ui.input_buffer, input_mode: InputMode::Normal, ..a.ui })
            &&& b.ui.input_buffer@.len() == 0
        } else {
            b == a
        },
        KeyCommand::InputBackspace => typed_post(a, b, |s: Seq<char>| drop_last_char(s)),
        KeyCommand::InputChar(c) => typed_post(a, b, |s: Seq<char>| s.push(c)),
        KeyCommand::Quit | KeyCommand::ForceQuit => b == (App { running: false, ..a }),
        KeyCommand::SelectUp => with_ui(a, b, ui_after_up(a.ui)),
        KeyCommand::SelectDown => with_ui(a, b, ui_after_down(a.ui, n)),
        KeyCommand::SelectTop => with_ui(a, b, ui_after_top(a.ui)),
        KeyCommand::SelectBottom => with_ui(a, b, ui_after_bottom(a.ui, n)),
        KeyCommand::PageUp => with_ui(a, b, ui_after_up_n(a.ui, page_steps())),
        KeyCommand::PageDown => with_ui(a, b, ui_after_down_n(a.ui, n, page_steps())),
        KeyCommand::NextSortOrder => resorted_app(a, b, spec_next_order(a.domain.sort_order), a.domain.sort_direction,
            sorted_quotes(a.domain.quotes@, spec_next_order(a.domain.sort_order), a.domain.sort_direction)),
        KeyCommand::ToggleSortDirection => resorted_app(a, b, a.domain.sort_order, spec_toggle(a.domain.sort_direction),
            sorted_quotes(a.domain.quotes@, a.domain.sort_order, spec_toggle(a.domain.sort_direction))),
        KeyCommand::SetSortOrder(order) => set_sort_order_post(a, b, order),
        KeyCommand::ToggleHoldings => with_ui(a, b, UiState { show_holdings: !a.ui.show_holdings, ..a.ui }),
        KeyCommand::ToggleFundamentals => with_ui(a, b, UiState { show_fundamentals: !a.ui.show_fundamentals, ..a.ui }),
        KeyCommand::ToggleHelp => with_ui(a, b, UiState { show_help: !a.ui.show_help, ..a.ui }),
        KeyCommand::EnterAddSymbol => {
            &&& b == (App { ui: b.ui, ..a })
            &&& b.ui == (UiState { input_buffer: b.ui.input_buffer, input_mode: InputMode::AddSymbol, ..a.ui })
            &&& b.ui.input_buffer@.len() == 0
        },
        KeyCommand::RemoveSymbol => if a.ui.selected < n {
            remove_symbol_post(a, b, spec_visible(a)[a.ui.selected as int].symbol@)
        } else {
            b == a
        },
        KeyCommand::EnterSearch => {
            &&& b == (App { ui: b.ui, ..a })
            &&& b.ui == (UiState { search_filter: b.ui.search_filter, input_mode: InputMode::Search, ..a.ui })
            &&& b.ui.search_filter@.len() == 0
        },
        KeyCommand::ToggleDetail => with_ui(a, b, UiState { show_detail: !a.ui.show_detail, ..a.ui }),
        KeyCommand::ForceRefresh => b == (App { last_refresh: None, ..a }),
        KeyCommand::ToggleSparklines => with_ui(a, b, UiState { show_sparklines: !a.ui.show_sparklines, ..a.ui }),
        KeyCommand::Export => b == a,
        KeyCommand::NextGroup => if a.domain.groups@.len() > 1 {
            b == (App {
                ui: UiState { selected: 0, scroll_offset: 0, ..a.ui },
                domain: DomainState {
                    active_group: ((a.domain.active_group + 1) % (a.domain.groups@.len() as int)) as usize,
                    ..a.domain
                },
                ..a
            })
        } else {
            b == a
        },
    }
}

/// What a command asks of the caller outside the application state.
pub open spec fn command_effect(cmd: KeyCommand) -> Option<Effect> {
    if cmd == KeyCommand::Export {
        Some(Effect::ExportWatchlist)
    } else {
        None
    }
}

/// Stepping on from the remainder is stepping on from the number.
proof fn lemma_mod_succ(a: int, n: int)
    requires
        a >= 0,
        n > 1,
    ensures
        (a % n + 1) % n == (a + 1) % n,
{
    vstd::arithmetic::div_mod::lemma_add_mod_noop(a, 1, n);
    vstd::arithmetic::div_mod::lemma_small_mod(1, n as nat);
}

impl App {
    /// Execute a command, returning what the caller is asked to do beyond the
    /// application state (writing the export file).
    pub fn handle_command(&mut self, cmd: KeyCommand) -> (r: Option<Effect>)
        ensures
            command_post(*old(self), *final(self), cmd),
            r == command_effect(cmd),
    {
        match cmd {
            KeyCommand::DismissAnyOverlay => self.dismiss_overlay(),
            KeyCommand::InputConfirm => self.input_confirm(),
            KeyCommand::InputCancel => self.input_cancel(),
            KeyCommand::InputBackspace => self.input_backspace(),
            KeyCommand::InputChar(c) => self.input_char(c),
            KeyCommand::Quit | KeyCommand::ForceQuit => self.quit(),
            KeyCommand::SelectUp => self.select_up(),
            KeyCommand::SelectDown => self.select_down(),
            KeyCommand::SelectTop => self.select_top(),
            KeyCommand::SelectBottom => self.select_bottom(),
            KeyCommand::PageUp => self.page_up(),
            KeyCommand::PageDown => self.page_down(),
            KeyCommand::NextSortOrder => self.next_sort_order(),
            KeyCommand::ToggleSortDirection => self.toggle_sort_direction(),
            KeyCommand::SetSortOrder(order) => self.set_sort_order(order),
            KeyCommand::ToggleHoldings => self.toggle_holdings(),
            KeyCommand::ToggleFundamentals => self.toggle_fundamentals(),
            KeyCommand::ToggleHelp => self.toggle_help(),
            KeyCommand::EnterAddSymbol => self.enter_add_symbol(),
            KeyCommand::RemoveSymbol => self.remove_selected(),
            KeyCommand::EnterSearch => self.enter_search(),
            KeyCommand::ToggleDetail => self.toggle_detail(),
            KeyCommand::ForceRefresh => self.last_refresh = None,
            KeyCommand::ToggleSparklines => self.ui.show_sparklines = !self.ui.show_sparklines,
            KeyCommand::Export => {
                return Some(Effect::ExportWatchlist);
            },
            KeyCommand::NextGroup => self.next_group(),
        }
        None
    }

    fn dismiss_overlay(&mut self)
        ensures
            command_post(*old(self), *final(self), KeyCommand::DismissAnyOverlay),
    {
        if self.ui.show_detail {
            self.ui.show_detail = false;
        } else if self.ui.show_help {
            self.ui.show_help = false;
        } else if self.error.is_some() {
            self.error = None;
        }
    }

    fn input_confirm(&mut self)
        ensures
            command_post(*old(self), *final(self), KeyCommand::InputConfirm),
    {
        if self.ui.input_mode == InputMode::AddSymbol {
            if !self.ui.input_buffer.as_str().is_empty() {
                let mut typed = String::new();
                std::mem::swap(&mut typed, &mut self.ui.input_buffer);
                let symbol = to_uppercase(typed.as_str());
                self.add_symbol(symbol.as_str());
                self.last_refresh = None;
            }
            self.ui.input_mode = InputMode::Normal;
        } else if self.ui.input_mode == InputMode::Search {
            self.ui.input_mode = InputMode::Normal;
            self.ui.selected = 0;
            self.ui.scroll_offset = 0;
        }
    }

    fn input_cancel(&mut self)
        ensures
            command_post(*old(self), *final(self), KeyCommand::InputCancel),
    {
        if self.ui.input_mode == InputMode::Search {
            clear_string(&mut self.ui.search_filter);
        } else if self.ui.input_mode == InputMode::AddSymbol {
            clear_string(&mut self.ui.input_buffer);
        }
        self.ui.input_mode = InputMode::Normal;
    }

    fn input_backspace(&mut self)
        ensures
            command_post(*old(self), *final(self), KeyCommand::InputBackspace),
    {
        if self.ui.input_mode == InputMode::Search {
            pop_char(&mut self.ui.search_filter);
            self.ui.selected = 0;
        } else if self.ui.input_mode == InputMode::AddSymbol {
            pop_char(&mut self.ui.input_buffer);
        }
    }

    fn input_char(&mut self, c: char)
        ensures
            command_post(*old(self), *final(self), KeyCommand::InputChar(c)),
    {
        if self.ui.input_mode == InputMode::Search {
            push_char(&mut self.ui.search_filter, c);
            self.ui.selected = 0;
        } else if self.ui.input_mode == InputMode::AddSymbol {
            push_char(&mut self.ui.input_buffer, c);
        }
    }

    fn page_up(&mut self)
        ensures
            command_post(*old(self), *final(self), KeyCommand::PageUp),
    {
        let mut k: u32 = 0;
        while k < 10
            invariant
                k <= 10,
                self.ui == ui_after_up_n(old(self).ui, k as nat),
                same_but_ui(*old(self), *self),
            decreases 10 - k,
        {
            self.select_up();
            k = k + 1;
        }
    }

    fn page_down(&mut self)
        ensures
            command_post(*old(self), *final(self), KeyCommand::PageDown),
    {
        let ghost n = spec_visible(*old(self)).len() as int;
        let mut k: u32 = 0;
        while k < 10
            invariant
                k <= 10,
                self.ui == ui_after_down_n(old(self).ui, n, k as nat),
                self.ui.search_filter == old(self).ui.search_filter,
                n == spec_visible(*old(self)).len() as int,
                same_but_ui(*old(self), *self),
            decreases 10 - k,
        {
            self.select_down();
            k = k + 1;
        }
    }

    fn enter_add_symbol(&mut self)
        ensures
            command_post(*old(self), *final(self), KeyCommand::EnterAddSymbol),
    {
        self.ui.input_mode = InputMode::AddSymbol;
        clear_string(&mut self.ui.input_buffer);
    }

    fn enter_search(&mut self)
        ensures
            command_post(*old(self), *final(self), KeyCommand::EnterSearch),
    {
        self.ui.input_mode = InputMode::Search;
        clear_string(&mut self.ui.search_filter);
    }

    fn remove_selected(&mut self)
        ensures
            command_post(*old(self), *final(self), KeyCommand::RemoveSymbol),
    {
        let selected = match self.selected_quote() {
            Some(quote) => Some(copy_str(quote.symbol.as_str())),
            None => None,
        };
        if let Some(symbol) = selected {
            self.remove_symbol(symbol.as_str());
        }
    }

    fn next_group(&mut self)
        ensures
            command_post(*old(self), *final(self), KeyCommand::NextGroup),
    {
        let len = self.domain.groups.len();
        if len > 1 {
            self.domain.active_group = (self.domain.active_group % len + 1) % len;
            proof {
                lemma_mod_succ(old(self).domain.active_group as int, len as int);
            }
            self.ui.selected = 0;
            self.ui.scroll_offset = 0;
        }
    }

    /// Handle a key press: translate it to a command for the current mode and
    /// overlays, and execute it.
    pub fn handle_key_event(&mut self, code: Key, ctrl: bool) -> (r: Option<Effect>)
        ensures
            match spec_key_to_command(
                code,
                ctrl,
                old(self).ui.input_mode,
                old(self).ui.show_help,
                old(self).error is Some,
                old(self).ui.secure_mode,
                old(self).ui.show_detail,
            ) {
                Some(cmd) => command_post(*old(self), *final(self), cmd) && r == command_effect(cmd),
                None => *final(self) == *old(self) && r is None,
            },
    {
        match key_to_command(
            code,
            ctrl,
            self.ui.input_mode,
            self.ui.show_help,
            self.error.is_some(),
            self.ui.secure_mode,
            self.ui.show_detail,
        ) {
            Some(cmd) => self.handle_command(cmd),
            None => None,
        }
    }
}

/// The symbol list and the first group after adding each of `es` in turn
/// (already expanded): a symbol joins both unless the symbol list holds it.
pub open spec fn adds_fold(syms: Seq<Seq<char>>, first: Seq<Seq<char>>, es: Seq<Seq<char>>) -> (Seq<Seq<char>>, Seq<Seq<char>>)
    decreases es.len(),
{
    if es.len() == 0 {
        (syms, first)
    } else {
        let prev = adds_fold(syms, first, es.drop_last());
        let e = es.last();
        if prev.0.contains(e) {
            prev
        } else {
            (prev.0.push(e), prev.1.push(e))
        }
    }
}

/// The first group's symbols, or none when there is no group.
pub open spec fn first_group(g: Seq<Seq<Seq<char>>>) -> Seq<Seq<char>> {
    if g.len() > 0 {
        g[0]
    } else {
        Seq::empty()
    }
}

/// The watchlist state `b` is `a` with each of `adds` added in turn, each
/// expanded by the shortcuts.
pub open spec fn added_symbols(a: DomainState, shortcuts: Map<Seq<char>, Seq<char>>, adds: Seq<Seq<char>>, b: DomainState) -> bool {
    let es = adds.map_values(|x: Seq<char>| spec_expand_symbol_with(shortcuts, x));
    let r = adds_fold(views(a.symbols@), first_group(group_views(a.group_symbols@)), es);
    &&& b == (DomainState { symbols: b.symbols, group_symbols: b.group_symbols, ..a })
    &&& views(b.symbols@) == r.0
    &&& group_views(b.group_symbols@) == (if a.group_symbols@.len() > 0 {
        group_views(a.group_symbols@).update(0, r.1)
    } else {
        group_views(a.group_symbols@)
    })
}

/// Each entry upper-cased.
pub open spec fn upper_all(s: Seq<Seq<char>>) -> Seq<Seq<char>> {
    s.map_values(|x: Seq<char>| spec_to_uppercase(x))
}

impl App {
    /// Add each of the symbols in turn, as `add_symbol` does.
    pub fn add_symbols(&mut self, symbols: &Vec<String>)
        ensures
            added_symbols(old(self).domain, old(self).crypto_shortcuts.deep_view(), views(symbols@), final(self).domain),
            same_but_domain(*old(self), *final(self)),
    {
        let ghost sh = self.crypto_shortcuts.deep_view();
        let ghost es = views(symbols@).map_values(|x: Seq<char>| spec_expand_symbol_with(sh, x));
        let ghost g0 = first_group(group_views(self.domain.group_symbols@));
        let mut i: usize = 0;
        while i < symbols.len()
            invariant
                i <= symbols.len(),
                sh == self.crypto_shortcuts.deep_view(),
                es == views(symbols@).map_values(|x: Seq<char>| spec_expand_symbol_with(sh, x)),
                g0 == first_group(group_views(old(self).domain.group_symbols@)),
                same_but_domain(*old(self), *self),
                self.domain == (DomainState { symbols: self.domain.symbols, group_symbols: self.domain.group_symbols, ..old(self).domain }),
                views(self.domain.symbols@) == adds_fold(views(old(self).domain.symbols@), g0, es.take(i as int)).0,
                self.domain.group_symbols@.len() == old(self).domain.group_symbols@.len(),
                group_views(self.domain.group_symbols@) == (if old(self).domain.group_symbols@.len() > 0 {
                    group_views(old(self).domain.group_symbols@).update(0, adds_fold(views(old(self).domain.symbols@), g0, es.take(i as int)).1)
                } else {
                    group_views(old(self).domain.group_symbols@)
                }),
            decreases symbols.len() - i,
        {
            assert(es.take(i + 1).drop_last() == es.take(i as int));
            assert(es.take(i + 1).last() == spec_expand_symbol_with(sh, symbols@[i as int]@));
            let ghost before = group_views(self.domain.group_symbols@);
            self.add_symbol(symbols[i].as_str());
            proof {
                if old(self).domain.group_symbols@.len() > 0 {
                    assert(group_views(self.domain.group_symbols@) =~= group_views(old(self).domain.group_symbols@).update(0,
                        adds_fold(views(old(self).domain.symbols@), g0, es.take(i + 1)).1));
                }
            }
            i = i + 1;
        }
        assert(es.take(symbols.len() as int) == es);
    }
}

impl App {
    /// Import symbols from a CSV text: every non-empty first-column entry of
    /// the lines after the header, upper-cased, is added; a refresh is asked for.
    pub fn import_csv(&mut self, content: &str)
        ensures
            added_symbols(old(self).domain, old(self).crypto_shortcuts.deep_view(), upper_all(spec_csv_symbols(content@)), final(self).domain),
            *final(self) == (App { domain: final(self).domain, last_refresh: None, ..*old(self) }),
    {
        let found = csv_symbols(content);
        let mut upper: Vec<String> = Vec::new();
        let mut i: usize = 0;
        while i < found.len()
            invariant
                i <= found.len(),
                found@.map_values(|x: String| x@) == spec_csv_symbols(content@),
                views(upper@) == upper_all(views(found@).take(i as int)),
            decreases found.len() - i,
        {
            let u = to_uppercase(found[i].as_str());
            let ghost prev = views(upper@);
            let ghost uv = u@;
            upper.push(u);
            assert(views(upper@) =~= prev.push(uv));
            assert(views(found@).take(i + 1) =~= views(found@).take(i as int).push(found@[i as int]@));
            assert(upper_all(views(found@).take(i + 1)) =~= upper_all(views(found@).take(i as int)).push(uv));
            i = i + 1;
        }
        assert(views(found@).take(found.len() as int) == views(found@));
        assert(views(found@) == spec_csv_symbols(content@));
        self.add_symbols(&upper);
        self.last_refresh = None;
    }

    /// Import a list of symbols: each is added; a refresh is asked for.
    pub fn import_symbols(&mut self, symbols: &Vec<String>)
        ensures
            added_symbols(old(self).domain, old(self).crypto_shortcuts.deep_view(), views(symbols@), final(self).domain),
            *final(self) == (App { domain: final(self).domain, last_refresh: None, ..*old(self) }),
    {
        self.add_symbols(symbols);
        self.last_refresh = None;
    }
}

/// What the application starts from: the command-line choices and the
/// configuration file's settings, as plain values.
pub struct StartupOptions {
    /// Symbols given on the command line, if any.
    pub symbols: Option<Vec<String>>,
    /// Every symbol of the configuration (watchlist, holdings, groups).
    pub config_symbols: Vec<String>,
    /// Custom symbol shortcuts.
    pub shortcuts: HashMap<String, String>,
    /// The configuration's symbol groups, by name.
    pub groups: Vec<(String, Vec<String>)>,
    /// The configuration's price alerts.
    pub alerts: Vec<Alert>,
    /// The sort order chosen on the command line.
    pub sort: SortOrder,
    /// The configuration's `display.sort_by`.
    pub config_sort_by: String,
    /// Sort ascending.
    pub reverse: bool,
    /// Show holdings (command line).
    pub holdings: bool,
    /// Show holdings (configuration).
    pub config_show_holdings: bool,
    /// Show fundamentals (configuration).
    pub config_show_fundamentals: bool,
    pub color: ColorMode,
    pub color_config: ColorConfig,
    pub verbose: bool,
    pub batch: bool,
    pub secure: bool,
    /// Number of refreshes before quitting (0 for no limit).
    pub iterations: u64,
    /// Time between refreshes.
    pub refresh_interval: Duration,
    /// The currency prices are shown in.
    pub display_currency: String,
    /// Convert prices to the display currency.
    pub currency_convert: bool,
}

/// Each entry expanded by the shortcuts.
pub open spec fn expanded_all(shortcuts: Map<Seq<char>, Seq<char>>, s: Seq<Seq<char>>) -> Seq<Seq<char>> {
    s.map_values(|x: Seq<char>| spec_expand_symbol_with(shortcuts, x))
}

/// The watched symbols at start-up: those of the command line, or else those
/// of the configuration, expanded by the shortcuts and without repeats.
pub open spec fn startup_symbols(o: StartupOptions) -> Seq<Seq<char>> {
    let base = match o.symbols {
        Some(v) => views(v@),
        None => views(o.config_symbols@),
    };
    dedup(expanded_all(o.shortcuts.deep_view(), base))
}

/// The application as it starts from `o`.
pub open spec fn built_from(o: StartupOptions, a: App) -> bool {
    let sh = o.shortcuts.deep_view();
    let syms = startup_symbols(o);
    &&& views(a.domain.symbols@) == syms
    &&& views(a.domain.groups@) == seq!["All"@] + o.groups@.map_values(|g: (String, Vec<String>)| g.0@)
    &&& group_views(a.domain.group_symbols@) == seq![syms] + o.groups@.map_values(
        |g: (String, Vec<String>)| expanded_all(sh, views(g.1@)),
    )
    &&& a.domain.alerts@.len() == o.alerts@.len()
    &&& forall|i: int| 0 <= i < o.alerts@.len() ==> {
        &&& (#[trigger] a.domain.alerts@[i]).symbol@ == spec_expand_symbol_with(sh, o.alerts@[i].symbol@)
        &&& a.domain.alerts@[i].above == o.alerts@[i].above
        &&& a.domain.alerts@[i].below == o.alerts@[i].below
    }
    &&& a.domain.quotes@.len() == 0
    &&& a.domain.sort_order == spec_initial_sort_order(o.sort, o.config_sort_by@)
    &&& a.domain.sort_direction == (if o.reverse { SortDirection::Ascending } else { SortDirection::Descending })
    &&& a.domain.triggered_alerts@.len() == 0
    &&& a.domain.active_group == 0
    &&& a.domain.sparkline_width == 20
    &&& a.domain.display_currency == o.display_currency
    &&& a.domain.currency_convert == o.currency_convert
    &&& a.domain.notifications_enabled
    &&& a.domain.failed_symbols@.len() == 0
    &&& a.ui.selected == 0
    &&& a.ui.scroll_offset == 0
    &&& !a.ui.show_help
    &&& a.ui.show_holdings == (o.holdings || o.config_show_holdings)
    &&& a.ui.show_fundamentals == o.config_show_fundamentals
    &&& !a.ui.show_detail
    &&& !a.ui.show_sparklines
    &&& a.ui.input_mode == InputMode::Normal
    &&& a.ui.input_buffer@.len() == 0
    &&& a.ui.search_filter@.len() == 0
    &&& a.ui.color_mode == o.color
    &&& a.ui.color_config == o.color_config
    &&& a.ui.terminal_height == 24
    &&& a.ui.verbose == o.verbose
    &&& a.ui.batch_mode == o.batch
    &&& a.ui.secure_mode == o.secure
    &&& a.last_refresh is None
    &&& a.refresh_interval == o.refresh_interval
    &&& a.iteration == 0
    &&& a.max_iterations == o.iterations
    &&& a.running
    &&& a.error is None
    &&& a.crypto_shortcuts == o.shortcuts
}

fn expand_each(v: &Vec<String>, shortcuts: &HashMap<String, String>) -> (r: Vec<String>)
    ensures
        views(r@) == expanded_all(shortcuts.deep_view(), views(v@)),
{
    let mut out: Vec<String> = Vec::new();
    let mut i: usize = 0;
    while i < v.len()
        invariant
            i <= v.len(),
            views(out@) == expanded_all(shortcuts.deep_view(), views(v@).take(i as int)),
        decreases v.len() - i,
    {
        let e = expand_symbol_with(v[i].as_str(), shortcuts);
        let ghost prev = views(out@);
        let ghost ev = e@;
        out.push(e);
        assert(views(out@) =~= prev.push(ev));
        assert(views(v@).take(i + 1) =~= views(v@).take(i as int).push(v@[i as int]@));
        assert(expanded_all(shortcuts.deep_view(), views(v@).take(i + 1)) =~= expanded_all(
            shortcuts.deep_view(),
            views(v@).take(i as int),
        ).push(ev));
        i = i + 1;
    }
    assert(views(v@).take(v.len() as int) == views(v@));
    out
}

fn copy_symbols(v: &Vec<String>) -> (r: Vec<String>)
    ensures
        views(r@) == views(v@),
{
    let mut out: Vec<String> = Vec::new();
    let mut i: usize = 0;
    while i < v.len()
        invariant
            i <= v.len(),
            views(out@) == views(v@).take(i as int),
        decreases v.len() - i,
    {
        let c = copy_str(v[i].as_str());
        let ghost prev = views(out@);
        out.push(c);
        assert(views(out@) =~= prev.push(c@));
        assert(views(v@).take(i + 1) =~= views(v@).take(i as int).push(v@[i as int]@));
        i = i + 1;
    }
    assert(views(v@).take(v.len() as int) == views(v@));
    out
}

impl App {
    /// The application state at start-up: the symbols of the command line or
    /// else of the configuration, expanded and without repeats; the groups,
    /// led by "All" which holds every symbol; the alerts with expanded symbols;
    /// the initial sort; and the interface at rest.
    pub fn build(opts: StartupOptions) -> (r: App)
        ensures
            built_from(opts, r),
    {
        let ghost o = opts;
        let StartupOptions {
            symbols,
            config_symbols,
            shortcuts,
            groups,
            alerts,
            sort,
            config_sort_by,
            reverse,
            holdings,
            config_show_holdings,
            config_show_fundamentals,
            color,
            color_config,
            verbose,
            batch,
            secure,
            iterations,
            refresh_interval,
            display_currency,
            currency_convert,
        } = opts;
        let base = match &symbols {
            Some(v) => expand_each(v, &shortcuts),
            None => expand_each(&config_symbols, &shortcuts),
        };
        let watched = unique_symbols(&base);
        let mut group_names: Vec<String> = Vec::new();
        group_names.push(copy_str("All"));
        let mut group_symbols: Vec<Vec<String>> = Vec::new();
        group_symbols.push(copy_symbols(&watched));
        let ghost sh = shortcuts.deep_view();
        let ghost syms = views(watched@);
        let mut i: usize = 0;
        while i < groups.len()
            invariant
                i <= groups.len(),
                sh == shortcuts.deep_view(),
                views(group_names@) == seq!["All"@] + groups@.take(i as int).map_values(|g: (String, Vec<String>)| g.0@),
                group_views(group_symbols@) == seq![syms] + groups@.take(i as int).map_values(
                    |g: (String, Vec<String>)| expanded_all(sh, views(g.1@)),
                ),
            decreases groups.len() - i,
        {
            let name = copy_str(groups[i].0.as_str());
            let members = expand_each(&groups[i].1, &shortcuts);
            let ghost prev_names = views(group_names@);
            let ghost prev_groups = group_views(group_symbols@);
            let ghost nv = name@;
            let ghost mv = views(members@);
            group_names.push(name);
            group_symbols.push(members);
            assert(views(group_names@) =~= prev_names.push(nv));
            assert(group_views(group_symbols@) =~= prev_groups.push(mv));
            assert(groups@.take(i + 1) =~= groups@.take(i as int).push(groups@[i as int]));
            assert(seq!["All"@] + groups@.take(i + 1).map_values(|g: (String, Vec<String>)| g.0@) =~= (seq!["All"@]
                + groups@.take(i as int).map_values(|g: (String, Vec<String>)| g.0@)).push(nv));
            assert(seq![syms] + groups@.take(i + 1).map_values(|g: (String, Vec<String>)| expanded_all(sh, views(g.1@)))
                =~= (seq![syms] + groups@.take(i as int).map_values(|g: (String, Vec<String>)| expanded_all(sh, views(g.1@)))).push(mv));
            i = i + 1;
        }
        assert(groups@.take(groups.len() as int) == groups@);
        let mut expanded_alerts: Vec<Alert> = Vec::new();
        let mut k: usize = 0;
        while k < alerts.len()
            invariant
                k <= alerts.len(),
                sh == shortcuts.deep_view(),
                expanded_alerts@.len() == k,
                forall|j: int| 0 <= j < k ==> {
                    &&& (#[trigger] expanded_alerts@[j]).symbol@ == spec_expand_symbol_with(sh, alerts@[j].symbol@)
                    &&& expanded_alerts@[j].above == alerts@[j].above
                    &&& expanded_alerts@[j].below == alerts@[j].below
                },
            decreases alerts.len() - k,
        {
            let a = Alert {
                symbol: expand_symbol_with(alerts[k].symbol.as_str(), &shortcuts),
                above: alerts[k].above,
                below: alerts[k].below,
            };
            expanded_alerts.push(a);
            k = k + 1;
        }
        let sort_order = initial_sort_order(sort, config_sort_by.as_str());
        App {
            ui: UiState {
                selected: 0,
                scroll_offset: 0,
                show_help: false,
                show_holdings: holdings || config_show_holdings,
                show_fundamentals: config_show_fundamentals,
                show_detail: false,
                show_sparklines: false,
                input_mode: InputMode::Normal,
                input_buffer: String::new(),
                search_filter: String::new(),
                color_mode: color,
                color_config,
                terminal_height: 24,
                verbose,
                batch_mode: batch,
                secure_mode: secure,
            },
            domain: DomainState {
                quotes: Vec::new(),
                symbols: watched,
                sort_order,
                sort_direction: if reverse {
                    SortDirection::Ascending
                } else {
                    SortDirection::Descending
                },
                alerts: expanded_alerts,
                triggered_alerts: Vec::new(),
                groups: group_names,
                group_symbols,
                active_group: 0,
                sparkline_width: 20,
                display_currency,
                currency_convert,
                notifications_enabled: true,
                failed_symbols: Vec::new(),
            },
            last_refresh: None,
            refresh_interval,
            iteration: 0,
            max_iterations: iterations,
            running: true,
            error: None,
            crypto_shortcuts: shortcuts,
        }
    }
}

} // verus!
