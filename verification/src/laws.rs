//! Properties of the watchlist that span several operations.
use vstd::prelude::*;
use crate::app::{
    added_symbol, added_symbols, adds_fold, built_from, command_post, group_views, last_position, remove_symbol_post,
    removed_symbol, spec_should_quit,
    spec_visible, startup_symbols, ui_after_bottom, ui_after_down, ui_after_down_n, ui_after_top,
    ui_after_up, ui_after_up_n, with_symbol, with_ui, without, quotes_without, App, DomainState, UiState,
};
use crate::input::{spec_key_to_command, InputMode, Key, KeyCommand};
use crate::models::Quote;
use crate::symbols::{dedup, lemma_dedup_unique, spec_expand_symbol_with, views};

verus! {

/// No symbol occurs twice in a list.
pub open spec fn unique(s: Seq<Seq<char>>) -> bool {
    s.no_duplicates()
}

proof fn lemma_without_props(s: Seq<Seq<char>>, e: Seq<char>)
    ensures
        !without(s, e).contains(e),
        forall|x: Seq<char>| x != e ==> (without(s, e).contains(x) <==> s.contains(x)),
        unique(s) ==> unique(without(s, e)),
        !s.contains(e) ==> without(s, e) == s,
    decreases s.len(),
{
    if s.len() > 0 {
        let t = s.drop_last();
        lemma_without_props(t, e);
        let w = without(t, e);
        assert(s =~= t.push(s.last()));
        assert forall|x: Seq<char>| x != e implies (without(s, e).contains(x) <==> s.contains(x)) by {
            if s.contains(x) && x != s.last() {
                let j = choose|j: int| 0 <= j < s.len() && s[j] == x;
                assert(t[j] == x);
            }
            if t.contains(x) {
                let j = choose|j: int| 0 <= j < t.len() && t[j] == x;
                assert(s[j] == x);
            }
            if s.last() != e {
                assert(w.push(s.last()).last() == s.last());
                if w.push(s.last()).contains(x) && x != s.last() {
                    let j = choose|j: int| 0 <= j < w.push(s.last()).len() && w.push(s.last())[j] == x;
                    assert(w[j] == x);
                }
                if w.contains(x) {
                    let j = choose|j: int| 0 <= j < w.len() && w[j] == x;
                    assert(w.push(s.last())[j] == x);
                }
            }
        }
        if s.last() != e {
            if w.push(s.last()).contains(e) {
                let j = choose|j: int| 0 <= j < w.push(s.last()).len() && w.push(s.last())[j] == e;
                assert(w[j] == e);
            }
        }
        if unique(s) {
            assert(unique(t));
            if s.last() != e {
                assert(!t.contains(s.last()));
                assert(!w.contains(s.last()));
                assert forall|i: int, j: int|
                    0 <= i < w.push(s.last()).len() && 0 <= j < w.push(s.last()).len() && i != j
                    implies w.push(s.last())[i] != w.push(s.last())[j] by {
                    if i == w.len() as int {
                        assert(w[j] == w.push(s.last())[j]);
                    } else if j == w.len() as int {
                        assert(w[i] == w.push(s.last())[i]);
                    }
                }
            }
        }
        if !s.contains(e) {
            assert(!t.contains(e)) by {
                if t.contains(e) {
                    let j = choose|j: int| 0 <= j < t.len() && t[j] == e;
                    assert(s[j] == e);
                }
            }
            assert(s.last() != e);
        }
    }
}

proof fn lemma_quotes_without_props(qs: Seq<Quote>, e: Seq<char>)
    ensures
        forall|i: int| 0 <= i < quotes_without(qs, e).len() ==> (#[trigger] quotes_without(qs, e)[i]).symbol@ != e,
    decreases qs.len(),
{
    if qs.len() > 0 {
        lemma_quotes_without_props(qs.drop_last(), e);
    }
}

/// After a symbol is added it is watched: the symbol list holds its
/// expansion.
pub proof fn lemma_added_symbol_watched(a: DomainState, sh: Map<Seq<char>, Seq<char>>, sym: Seq<char>, b: DomainState)
    requires
        added_symbol(a, sh, sym, b),
    ensures
        views(b.symbols@).contains(spec_expand_symbol_with(sh, sym)),
        views(b.symbols@) == with_symbol(views(a.symbols@), spec_expand_symbol_with(sh, sym)),
{
    let e = spec_expand_symbol_with(sh, sym);
    if !views(a.symbols@).contains(e) {
        assert(views(b.symbols@).last() == e);
    }
}

/// Adding a symbol a second time changes nothing.
pub proof fn lemma_add_symbol_idempotent(
    a: DomainState,
    sh: Map<Seq<char>, Seq<char>>,
    sym: Seq<char>,
    b: DomainState,
    c: DomainState,
)
    requires
        added_symbol(a, sh, sym, b),
        added_symbol(b, sh, sym, c),
    ensures
        c == b,
{
    lemma_added_symbol_watched(a, sh, sym, b);
}

/// Adding a symbol keeps the symbol list free of repeats.
pub proof fn lemma_add_keeps_unique(a: DomainState, sh: Map<Seq<char>, Seq<char>>, sym: Seq<char>, b: DomainState)
    requires
        added_symbol(a, sh, sym, b),
        unique(views(a.symbols@)),
    ensures
        unique(views(b.symbols@)),
{
    let e = spec_expand_symbol_with(sh, sym);
    let s = views(a.symbols@);
    if !s.contains(e) {
        assert forall|i: int, j: int|
            0 <= i < s.push(e).len() && 0 <= j < s.push(e).len() && i != j
            implies s.push(e)[i] != s.push(e)[j] by {
            if i == s.len() as int {
                assert(s[j] == s.push(e)[j]);
            } else if j == s.len() as int {
                assert(s[i] == s.push(e)[i]);
            }
        }
    }
}

/// After a symbol is removed it is gone: from the symbol list, from the
/// quotes, and from every group; every other symbol stays as it was, and the
/// list stays free of repeats.
pub proof fn lemma_removed_symbol_gone(a: DomainState, sh: Map<Seq<char>, Seq<char>>, sym: Seq<char>, b: DomainState)
    requires
        removed_symbol(a, sh, sym, b),
    ensures
        !views(b.symbols@).contains(spec_expand_symbol_with(sh, sym)),
        forall|x: Seq<char>| x != spec_expand_symbol_with(sh, sym) ==> (views(b.symbols@).contains(x) <==> views(a.symbols@).contains(x)),
        forall|i: int| 0 <= i < b.quotes@.len() ==> (#[trigger] b.quotes@[i]).symbol@ != spec_expand_symbol_with(sh, sym),
        forall|g: int| 0 <= g < b.group_symbols@.len() ==> !(#[trigger] group_views(b.group_symbols@)[g]).contains(spec_expand_symbol_with(sh, sym)),
        unique(views(a.symbols@)) ==> unique(views(b.symbols@)),
{
    let e = spec_expand_symbol_with(sh, sym);
    lemma_without_props(views(a.symbols@), e);
    lemma_quotes_without_props(a.quotes@, e);
    assert forall|g: int| 0 <= g < b.group_symbols@.len() implies !(#[trigger] group_views(b.group_symbols@)[g]).contains(e) by {
        lemma_without_props(group_views(a.group_symbols@)[g], e);
    }
}

/// Removing a symbol undoes adding it: adding a symbol that was not watched
/// and then removing it gives back the symbol list it started from.
pub proof fn lemma_remove_undoes_add(
    a: DomainState,
    sh: Map<Seq<char>, Seq<char>>,
    sym: Seq<char>,
    b: DomainState,
    c: DomainState,
)
    requires
        added_symbol(a, sh, sym, b),
        removed_symbol(b, sh, sym, c),
        !views(a.symbols@).contains(spec_expand_symbol_with(sh, sym)),
    ensures
        views(c.symbols@) == views(a.symbols@),
{
    let e = spec_expand_symbol_with(sh, sym);
    let s = views(a.symbols@);
    assert(s.push(e).drop_last() =~= s);
    lemma_without_props(s, e);
}

/// After a symbol is removed, the selection is on a row still shown (or at
/// the top when nothing is shown).
pub proof fn lemma_remove_keeps_selection_shown(a: App, b: App, sym: Seq<char>)
    requires
        remove_symbol_post(a, b, sym),
    ensures
        b.ui.selected <= last_position(spec_visible(b).len() as int),
{
}

/// The symbols watched at start-up hold no repeats, and are exactly the
/// expansions of the symbols asked for.
pub proof fn lemma_startup_symbols_unique(o: crate::app::StartupOptions, a: App)
    requires
        built_from(o, a),
    ensures
        unique(views(a.domain.symbols@)),
        views(a.domain.symbols@) == startup_symbols(o),
{
    let base = match o.symbols {
        Some(v) => views(v@),
        None => views(o.config_symbols@),
    };
    lemma_dedup_unique(crate::app::expanded_all(o.shortcuts.deep_view(), base));
}

/// Moving the selection never takes it past the last quote shown: from a
/// selection on a shown row (or at the top of an empty list), every move
/// lands on a shown row (or at the top).
pub proof fn lemma_navigation_in_range(a: App, n: int)
    requires
        n == spec_visible(a).len(),
        n <= usize::MAX,
        a.ui.selected <= last_position(n),
    ensures
        ui_after_up(a.ui).selected <= last_position(n),
        ui_after_down(a.ui, n).selected <= last_position(n),
        ui_after_top(a.ui).selected <= last_position(n),
        ui_after_bottom(a.ui, n).selected == last_position(n),
{
}

/// Paging keeps the selection within the shown rows as single steps do.
pub proof fn lemma_paging_in_range(a: App, n: int, k: nat)
    requires
        n == spec_visible(a).len(),
        a.ui.selected <= last_position(n),
    ensures
        ui_after_up_n(a.ui, k).selected <= last_position(n),
        ui_after_down_n(a.ui, n, k).selected <= last_position(n),
    decreases k,
{
    if k > 0 {
        lemma_paging_in_range(a, n, (k - 1) as nat);
    }
}

/// In secure mode (no overlay or typing mode open), no key changes the
/// watchlist: symbols, quotes, sorting, alerts and groups stay as they are.
pub proof fn lemma_secure_keys_keep_watchlist(a: App, b: App, code: Key, ctrl: bool)
    requires
        a.ui.secure_mode,
        a.ui.input_mode == InputMode::Normal,
        !a.ui.show_help,
        !a.ui.show_detail,
        a.error is None,
        match spec_key_to_command(code, ctrl, a.ui.input_mode, a.ui.show_help, a.error is Some, a.ui.secure_mode, a.ui.show_detail) {
            Some(cmd) => command_post(a, b, cmd),
            None => b == a,
        },
    ensures
        b.domain == a.domain,
        b.ui.show_help == a.ui.show_help,
        b.ui.show_holdings == a.ui.show_holdings,
        b.ui.show_fundamentals == a.ui.show_fundamentals,
        b.ui.show_sparklines == a.ui.show_sparklines,
        b.ui.input_mode == a.ui.input_mode,
        b.ui.search_filter == a.ui.search_filter,
{
    crate::input::lemma_secure_mode_only_navigates(code, ctrl);
}

/// Cycling groups keeps the active group an index into the groups.
pub proof fn lemma_next_group_in_range(a: App, b: App)
    requires
        command_post(a, b, KeyCommand::NextGroup),
        a.domain.groups@.len() > 1,
    ensures
        b.domain.active_group < b.domain.groups@.len(),
{
}

/// Adding each of `es` in turn to a watchlist without symbols leaves `es`
/// without its repeats.
proof fn lemma_adds_fold_from_empty(first: Seq<Seq<char>>, es: Seq<Seq<char>>)
    ensures
        adds_fold(Seq::empty(), first, es).0 == dedup(es),
    decreases es.len(),
{
    if es.len() > 0 {
        lemma_adds_fold_from_empty(first, es.drop_last());
    }
}

/// A list without repeats is what dropping repeats leaves of it.
proof fn lemma_dedup_of_unique(s: Seq<Seq<char>>)
    requires
        unique(s),
    ensures
        dedup(s) == s,
    decreases s.len(),
{
    if s.len() > 0 {
        let p = s.drop_last();
        assert(unique(p));
        lemma_dedup_of_unique(p);
        assert(!p.contains(s.last())) by {
            if p.contains(s.last()) {
                let j = choose|j: int| 0 <= j < p.len() && p[j] == s.last();
                assert(s[j] == s[s.len() - 1]);
            }
        }
        assert(p.push(s.last()) =~= s);
    }
}

/// Importing an exported symbol list into a watchlist without symbols gives
/// back that list, when it holds no repeats and the shortcuts leave each of
/// its symbols as it is (as they do every symbol they produced, unless a
/// custom shortcut maps onto another shortcut).
pub proof fn lemma_import_round_trip(
    a: DomainState,
    sh: Map<Seq<char>, Seq<char>>,
    exported: Seq<Seq<char>>,
    b: DomainState,
)
    requires
        a.symbols@.len() == 0,
        unique(exported),
        forall|i: int| 0 <= i < exported.len() ==> spec_expand_symbol_with(sh, #[trigger] exported[i]) == exported[i],
        added_symbols(a, sh, exported, b),
    ensures
        views(b.symbols@) == exported,
{
    let es = exported.map_values(|x: Seq<char>| spec_expand_symbol_with(sh, x));
    assert(es =~= exported);
    assert(views(a.symbols@) =~= Seq::<Seq<char>>::empty());
    lemma_adds_fold_from_empty(crate::app::first_group(group_views(a.group_symbols@)), es);
    lemma_dedup_of_unique(exported);
}

/// With an iteration limit (`-n`), a running application that has refreshed
/// `k` times since it started quits exactly when `k` has reached the limit;
/// without a limit (0) it keeps running. `s[i + 1]` is `s[i]` after one
/// refresh, as `App::apply_refresh` states it.
pub proof fn lemma_iteration_limit(s: Seq<App>)
    requires
        s.len() > 0,
        s[0].iteration == 0,
        s[0].running,
        forall|i: int| 0 <= i < s.len() - 1 ==> {
            &&& (#[trigger] s[i + 1]).iteration == s[i].iteration + 1
            &&& s[i + 1].max_iterations == s[i].max_iterations
            &&& s[i + 1].running == s[i].running
        },
    ensures
        s.last().iteration == s.len() - 1,
        spec_should_quit(s.last()) <==> (s[0].max_iterations > 0 && s.len() - 1 >= s[0].max_iterations),
    decreases s.len(),
{
    if s.len() > 1 {
        let p = s.drop_last();
        assert forall|i: int| 0 <= i < p.len() - 1 implies {
            &&& (#[trigger] p[i + 1]).iteration == p[i].iteration + 1
            &&& p[i + 1].max_iterations == p[i].max_iterations
            &&& p[i + 1].running == p[i].running
        } by {
            assert(s[i + 1].iteration == s[i].iteration + 1);
        }
        lemma_iteration_limit(p);
        let i = s.len() - 2;
        assert(s[i + 1].iteration == s[i].iteration + 1);
        lemma_running_kept(s);
    }
}

proof fn lemma_running_kept(s: Seq<App>)
    requires
        s.len() > 0,
        forall|i: int| 0 <= i < s.len() - 1 ==> {
            &&& (#[trigger] s[i + 1]).iteration == s[i].iteration + 1
            &&& s[i + 1].max_iterations == s[i].max_iterations
            &&& s[i + 1].running == s[i].running
        },
    ensures
        s.last().running == s[0].running,
        s.last().max_iterations == s[0].max_iterations,
    decreases s.len(),
{
    if s.len() > 1 {
        let p = s.drop_last();
        assert forall|i: int| 0 <= i < p.len() - 1 implies {
            &&& (#[trigger] p[i + 1]).iteration == p[i].iteration + 1
            &&& p[i + 1].max_iterations == p[i].max_iterations
            &&& p[i + 1].running == p[i].running
        } by {
            assert(s[i + 1].iteration == s[i].iteration + 1);
        }
        lemma_running_kept(p);
        let i = s.len() - 2;
        assert(s[i + 1].running == s[i].running);
    }
}

/// Showing or hiding a panel twice gives back the application as it was.
#[verifier::spinoff_prover]
#[verifier::rlimit(40)]
pub proof fn lemma_toggle_twice(a: App, b: App, c: App, cmd: KeyCommand)
    requires
        cmd == KeyCommand::ToggleHelp || cmd == KeyCommand::ToggleHoldings || cmd == KeyCommand::ToggleFundamentals
            || cmd == KeyCommand::ToggleDetail || cmd == KeyCommand::ToggleSparklines,
        command_post(a, b, cmd),
        command_post(b, c, cmd),
    ensures
        c == a,
{
    if cmd == KeyCommand::ToggleHelp {
        assert(with_ui(a, b, UiState { show_help: !a.ui.show_help, ..a.ui }));
        assert(with_ui(b, c, UiState { show_help: !b.ui.show_help, ..b.ui }));
    } else if cmd == KeyCommand::ToggleHoldings {
        assert(with_ui(a, b, UiState { show_holdings: !a.ui.show_holdings, ..a.ui }));
        assert(with_ui(b, c, UiState { show_holdings: !b.ui.show_holdings, ..b.ui }));
    } else if cmd == KeyCommand::ToggleFundamentals {
        assert(with_ui(a, b, UiState { show_fundamentals: !a.ui.show_fundamentals, ..a.ui }));
        assert(with_ui(b, c, UiState { show_fundamentals: !b.ui.show_fundamentals, ..b.ui }));
    } else if cmd == KeyCommand::ToggleDetail {
        assert(with_ui(a, b, UiState { show_detail: !a.ui.show_detail, ..a.ui }));
        assert(with_ui(b, c, UiState { show_detail: !b.ui.show_detail, ..b.ui }));
    } else {
        assert(with_ui(a, b, UiState { show_sparklines: !a.ui.show_sparklines, ..a.ui }));
        assert(with_ui(b, c, UiState { show_sparklines: !b.ui.show_sparklines, ..b.ui }));
    }
    assert(c.ui == a.ui);
}

/// One press of Tab as far as the groups go: with more than one group, the
/// groups stay and the next one, counting round, becomes active.
spec fn group_step(a: App, b: App) -> bool {
    a.domain.groups@.len() > 1 ==> {
        &&& b.domain.groups == a.domain.groups
        &&& b.domain.active_group == (a.domain.active_group + 1) % (a.domain.groups@.len() as int)
    }
}

proof fn lemma_next_group_step(a: App, b: App)
    requires
        command_post(a, b, KeyCommand::NextGroup),
    ensures
        group_step(a, b),
{
    if a.domain.groups@.len() > 1 {
        assert(a.domain.groups.len() == a.domain.groups@.len());
    }
}

/// The active group after `k` presses of Tab from `s[0]`: `k` groups further
/// on, counting round.
proof fn lemma_group_steps(s: Seq<App>, k: int)
    requires
        0 <= k < s.len(),
        s[0].domain.groups@.len() > 1,
        s[0].domain.active_group < s[0].domain.groups@.len(),
        forall|i: int| 0 <= i < s.len() - 1 ==> #[trigger] group_step(s[i], s[i + 1]),
    ensures
        s[k].domain.groups == s[0].domain.groups,
        s[k].domain.active_group == (s[0].domain.active_group + k) % (s[0].domain.groups@.len() as int),
    decreases k,
{
    let n = s[0].domain.groups@.len() as int;
    if k == 0 {
        vstd::arithmetic::div_mod::lemma_small_mod(s[0].domain.active_group as nat, n as nat);
    } else {
        lemma_group_steps(s, k - 1);
        let i = k - 1;
        assert(group_step(s[i], s[i + 1]));
        let g = s[0].domain.active_group + k - 1;
        vstd::arithmetic::div_mod::lemma_add_mod_noop(g, 1, n);
        vstd::arithmetic::div_mod::lemma_small_mod(1, n as nat);
    }
}

/// Pressing Tab once per group comes back to the group one started from.
pub proof fn lemma_group_cycle(s: Seq<App>)
    requires
        s[0].domain.groups@.len() > 1,
        s.len() == s[0].domain.groups@.len() + 1,
        s[0].domain.active_group < s[0].domain.groups@.len(),
        forall|i: int| 0 <= i < s.len() - 1 ==> command_post(#[trigger] s[i], s[i + 1], KeyCommand::NextGroup),
    ensures
        s.last().domain.active_group == s[0].domain.active_group,
{
    let n = s[0].domain.groups@.len() as int;
    assert forall|i: int| 0 <= i < s.len() - 1 implies #[trigger] group_step(s[i], s[i + 1]) by {
        lemma_next_group_step(s[i], s[i + 1]);
    }
    lemma_group_steps(s, n);
    vstd::arithmetic::div_mod::lemma_mod_add_multiples_vanish(s[0].domain.active_group as int, n);
    vstd::arithmetic::div_mod::lemma_small_mod(s[0].domain.active_group as nat, n as nat);
}

} // verus!
