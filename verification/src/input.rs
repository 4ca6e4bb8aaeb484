//! Keyboard input: the keys the interface reacts to and the command each
//! key stands for in each mode.
use vstd::prelude::*;
use crate::models::{next_order_n, SortOrder};
use crate::text::digit_char;

verus! {

/// A key press, as far as the interface distinguishes keys.
#[derive(Debug, Clone, Copy, PartialEq, Eq, Structural)]
pub enum Key {
    Char(char),
    Enter,
    Esc,
    Backspace,
    Up,
    Down,
    Home,
    End,
    PageUp,
    PageDown,
    Tab,
    /// Any other key.
    Other,
}

/// Input mode for interactive commands.
#[derive(Debug, Clone, Copy, PartialEq, Eq, Structural, Default)]
pub enum InputMode {
    #[default]
    Normal,
    AddSymbol,
    Search,
}

/// Commands for key input: what a key asks the application to do.
#[derive(Debug, Clone, Copy, PartialEq, Eq, Structural)]
pub enum KeyCommand {
    Quit,
    ForceQuit,
    SelectUp,
    SelectDown,
    SelectTop,
    SelectBottom,
    PageUp,
    PageDown,
    NextSortOrder,
    ToggleSortDirection,
    SetSortOrder(SortOrder),
    ToggleHoldings,
    ToggleFundamentals,
    ToggleHelp,
    EnterAddSymbol,
    RemoveSymbol,
    EnterSearch,
    ToggleDetail,
    ForceRefresh,
    ToggleSparklines,
    Export,
    NextGroup,
    InputConfirm,
    InputCancel,
    InputBackspace,
    InputChar(char),
    DismissAnyOverlay,
}

/// Keys while typing a symbol or a search filter.
pub open spec fn spec_typing_binding(code: Key) -> Option<KeyCommand> {
    match code {
        Key::Enter => Some(KeyCommand::InputConfirm),
        Key::Esc => Some(KeyCommand::InputCancel),
        Key::Backspace => Some(KeyCommand::InputBackspace),
        Key::Char(c) => Some(KeyCommand::InputChar(c)),
        _ => None,
    }
}

/// Keys that quit and move the selection; the only ones secure mode keeps.
pub open spec fn spec_navigation_binding(code: Key, ctrl: bool) -> Option<KeyCommand> {
    match code {
        Key::Char('q') | Key::Esc => Some(KeyCommand::Quit),
        Key::Char('c') if ctrl => Some(KeyCommand::ForceQuit),
        Key::Up | Key::Char('k') => Some(KeyCommand::SelectUp),
        Key::Down | Key::Char('j') => Some(KeyCommand::SelectDown),
        Key::Home | Key::Char('g') => Some(KeyCommand::SelectTop),
        Key::End | Key::Char('G') => Some(KeyCommand::SelectBottom),
        _ => None,
    }
}

/// The full key map of normal mode.
pub open spec fn spec_normal_binding(code: Key, ctrl: bool) -> Option<KeyCommand> {
    match spec_navigation_binding(code, ctrl) {
        Some(cmd) => Some(cmd),
        None => match code {
            Key::PageUp => Some(KeyCommand::PageUp),
            Key::PageDown => Some(KeyCommand::PageDown),
            Key::Char('s') => Some(KeyCommand::NextSortOrder),
            Key::Char('r') => Some(KeyCommand::ToggleSortDirection),
            Key::Char('1') => Some(KeyCommand::SetSortOrder(SortOrder::Symbol)),
            Key::Char('2') => Some(KeyCommand::SetSortOrder(SortOrder::Name)),
            Key::Char('3') => Some(KeyCommand::SetSortOrder(SortOrder::Price)),
            Key::Char('4') => Some(KeyCommand::SetSortOrder(SortOrder::Change)),
            Key::Char('5') => Some(KeyCommand::SetSortOrder(SortOrder::ChangePercent)),
            Key::Char('6') => Some(KeyCommand::SetSortOrder(SortOrder::Volume)),
            Key::Char('7') => Some(KeyCommand::SetSortOrder(SortOrder::MarketCap)),
            Key::Char('H') => Some(KeyCommand::ToggleHoldings),
            Key::Char('f') => Some(KeyCommand::ToggleFundamentals),
            Key::Char('h') | Key::Char('?') => Some(KeyCommand::ToggleHelp),
            Key::Char('a') => Some(KeyCommand::EnterAddSymbol),
            Key::Char('d') => Some(KeyCommand::RemoveSymbol),
            Key::Char('/') => Some(KeyCommand::EnterSearch),
            Key::Enter => Some(KeyCommand::ToggleDetail),
            Key::Char(' ') | Key::Char('R') => Some(KeyCommand::ForceRefresh),
            Key::Char('S') => Some(KeyCommand::ToggleSparklines),
            Key::Char('e') => Some(KeyCommand::Export),
            Key::Tab => Some(KeyCommand::NextGroup),
            _ => None,
        },
    }
}

/// The command a key stands for, given the interface's state. An open detail
/// view swallows any key; then a typing mode takes the typing keys; then an
/// open help overlay or error banner swallows any key; secure mode keeps only
/// quitting and navigation.
pub open spec fn spec_key_to_command(
    code: Key,
    ctrl: bool,
    input_mode: InputMode,
    show_help: bool,
    has_error: bool,
    secure_mode: bool,
    show_detail: bool,
) -> Option<KeyCommand> {
    if show_detail {
        Some(KeyCommand::DismissAnyOverlay)
    } else if input_mode != InputMode::Normal {
        spec_typing_binding(code)
    } else if show_help || has_error {
        Some(KeyCommand::DismissAnyOverlay)
    } else if secure_mode {
        spec_navigation_binding(code, ctrl)
    } else {
        spec_normal_binding(code, ctrl)
    }
}

fn typing_binding(code: Key) -> (r: Option<KeyCommand>)
    ensures
        r == spec_typing_binding(code),
{
    match code {
        Key::Enter => Some(KeyCommand::InputConfirm),
        Key::Esc => Some(KeyCommand::InputCancel),
        Key::Backspace => Some(KeyCommand::InputBackspace),
        Key::Char(c) => Some(KeyCommand::InputChar(c)),
        _ => None,
    }
}

fn navigation_binding(code: Key, ctrl: bool) -> (r: Option<KeyCommand>)
    ensures
        r == spec_navigation_binding(code, ctrl),
{
    match code {
        Key::Char('q') | Key::Esc => Some(KeyCommand::Quit),
        Key::Char('c') if ctrl => Some(KeyCommand::ForceQuit),
        Key::Up | Key::Char('k') => Some(KeyCommand::SelectUp),
        Key::Down | Key::Char('j') => Some(KeyCommand::SelectDown),
        Key::Home | Key::Char('g') => Some(KeyCommand::SelectTop),
        Key::End | Key::Char('G') => Some(KeyCommand::SelectBottom),
        _ => None,
    }
}

fn normal_binding(code: Key, ctrl: bool) -> (r: Option<KeyCommand>)
    ensures
        r == spec_normal_binding(code, ctrl),
{
    match navigation_binding(code, ctrl) {
        Some(cmd) => Some(cmd),
        None => match code {
            Key::PageUp => Some(KeyCommand::PageUp),
            Key::PageDown => Some(KeyCommand::PageDown),
            Key::Char('s') => Some(KeyCommand::NextSortOrder),
            Key::Char('r') => Some(KeyCommand::ToggleSortDirection),
            Key::Char('1') => Some(KeyCommand::SetSortOrder(SortOrder::Symbol)),
            Key::Char('2') => Some(KeyCommand::SetSortOrder(SortOrder::Name)),
            Key::Char('3') => Some(KeyCommand::SetSortOrder(SortOrder::Price)),
            Key::Char('4') => Some(KeyCommand::SetSortOrder(SortOrder::Change)),
            Key::Char('5') => Some(KeyCommand::SetSortOrder(SortOrder::ChangePercent)),
            Key::Char('6') => Some(KeyCommand::SetSortOrder(SortOrder::Volume)),
            Key::Char('7') => Some(KeyCommand::SetSortOrder(SortOrder::MarketCap)),
            Key::Char('H') => Some(KeyCommand::ToggleHoldings),
            Key::Char('f') => Some(KeyCommand::ToggleFundamentals),
            Key::Char('h') | Key::Char('?') => Some(KeyCommand::ToggleHelp),
            Key::Char('a') => Some(KeyCommand::EnterAddSymbol),
            Key::Char('d') => Some(KeyCommand::RemoveSymbol),
            Key::Char('/') => Some(KeyCommand::EnterSearch),
            Key::Enter => Some(KeyCommand::ToggleDetail),
            Key::Char(' ') | Key::Char('R') => Some(KeyCommand::ForceRefresh),
            Key::Char('S') => Some(KeyCommand::ToggleSparklines),
            Key::Char('e') => Some(KeyCommand::Export),
            Key::Tab => Some(KeyCommand::NextGroup),
            _ => None,
        },
    }
}

/// Map a key press and the current mode and overlay state to a command, or
/// `None` when the key does nothing.
pub fn key_to_command(
    code: Key,
    ctrl: bool,
    input_mode: InputMode,
    show_help: bool,
    has_error: bool,
    secure_mode: bool,
    show_detail: bool,
) -> (r: Option<KeyCommand>)
    ensures
        r == spec_key_to_command(
            code,
            ctrl,
            input_mode,
            show_help,
            has_error,
            secure_mode,
            show_detail,
        ),
{
    if show_detail {
        return Some(KeyCommand::DismissAnyOverlay);
    }
    if input_mode == InputMode::Search {
        return typing_binding(code);
    }
    if input_mode == InputMode::AddSymbol {
        return typing_binding(code);
    }
    if show_help {
        return Some(KeyCommand::DismissAnyOverlay);
    }
    if has_error {
        return Some(KeyCommand::DismissAnyOverlay);
    }
    if secure_mode {
        return navigation_binding(code, ctrl);
    }
    normal_binding(code, ctrl)
}

/// In secure mode (and with no overlay or typing mode open) no key toggles a
/// view, edits the watchlist, sorts, searches, refreshes or exports: every
/// command is quitting or moving the selection.
pub proof fn lemma_secure_mode_only_navigates(code: Key, ctrl: bool)
    ensures
        match spec_key_to_command(code, ctrl, InputMode::Normal, false, false, true, false) {
            Some(cmd) => cmd == KeyCommand::Quit || cmd == KeyCommand::ForceQuit
                || cmd == KeyCommand::SelectUp || cmd == KeyCommand::SelectDown
                || cmd == KeyCommand::SelectTop || cmd == KeyCommand::SelectBottom,
            None => true,
        },
{
}

/// An open overlay (detail view, help, or error banner) outside typing mode
/// swallows every key: the key only dismisses it.
pub proof fn lemma_overlay_swallows_keys(
    code: Key,
    ctrl: bool,
    show_help: bool,
    has_error: bool,
    secure_mode: bool,
    show_detail: bool,
)
    requires
        show_detail || show_help || has_error,
    ensures
        spec_key_to_command(code, ctrl, InputMode::Normal, show_help, has_error, secure_mode, show_detail)
            == Some(KeyCommand::DismissAnyOverlay),
{
}

/// In normal mode with no overlay, digit key `k` (1 to 7) sorts by the
/// `k`-th column, counting the columns in their cycle order from the symbol
/// column (symbol, name, price, change, change %, volume, market cap).
pub proof fn lemma_digit_keys_select_columns(k: int, ctrl: bool)
    requires
        1 <= k <= 7,
    ensures
        spec_key_to_command(Key::Char(digit_char(k)), ctrl, InputMode::Normal, false, false, false, false)
            == Some(KeyCommand::SetSortOrder(next_order_n(SortOrder::Symbol, (k - 1) as nat))),
{
    reveal_with_fuel(next_order_n, 8);
}

} // verus!
