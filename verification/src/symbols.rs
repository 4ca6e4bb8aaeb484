//! Ticker symbols: validation, shortcut expansion, and the strings the
//! quote source uses for market state and instrument type.
use std::collections::HashMap;
use vstd::prelude::*;
use crate::models::{MarketState, QuoteType};
use crate::text::{chars_of, copy_str, push_char, str_equal, string_from_chars, string_from_range};

verus! {

/// The characters a ticker symbol may contain: ASCII letters and digits,
/// `-`, `.` and `^`.
pub open spec fn symbol_char_ok(c: char) -> bool {
    ||| ('0' <= c && c <= '9')
    ||| ('a' <= c && c <= 'z')
    ||| ('A' <= c && c <= 'Z')
    ||| c == '-'
    ||| c == '.'
    ||| c == '^'
}

/// A symbol is safe to place in a request path: 1 to 20 characters, each
/// one of `symbol_char_ok`.
pub open spec fn spec_is_valid_symbol(s: Seq<char>) -> bool {
    &&& 0 < s.len() <= 20
    &&& forall|i: int| 0 <= i < s.len() ==> symbol_char_ok(#[trigger] s[i])
}

fn symbol_char_ok_exec(c: char) -> (r: bool)
    ensures
        r == symbol_char_ok(c),
{
    ('0' <= c && c <= '9') || ('a' <= c && c <= 'z') || ('A' <= c && c <= 'Z') || c == '-'
        || c == '.' || c == '^'
}

/// Validate that a symbol contains only safe characters for URL construction.
pub fn is_valid_symbol(symbol: &str) -> (r: bool)
    ensures
        r == spec_is_valid_symbol(symbol@),
{
    let cs = chars_of(symbol);
    if cs.len() == 0 || cs.len() > 20 {
        return false;
    }
    let mut i: usize = 0;
    while i < cs.len()
        invariant
            i <= cs.len(),
            cs@ == symbol@,
            forall|k: int| 0 <= k < i ==> symbol_char_ok(#[trigger] cs@[k]),
        decreases cs.len() - i,
    {
        if !symbol_char_ok_exec(cs[i]) {
            return false;
        }
        i = i + 1;
    }
    true
}

/// The market state named by the quote source's `marketState` string.
pub open spec fn spec_parse_market_state(s: Option<Seq<char>>) -> MarketState {
    match s {
        Some(x) => if x == "PRE"@ || x == "PREPRE"@ {
            MarketState::Pre
        } else if x == "REGULAR"@ {
            MarketState::Regular
        } else if x == "POST"@ || x == "POSTPOST"@ {
            MarketState::Post
        } else {
            MarketState::Closed
        },
        None => MarketState::Closed,
    }
}

/// The view of an optional string.
pub open spec fn opt_str_view(s: Option<&str>) -> Option<Seq<char>> {
    match s {
        Some(x) => Some(x@),
        None => None,
    }
}

/// Parse the market state reported by the quote source; anything unknown is
/// treated as closed.
pub fn parse_market_state(s: Option<&str>) -> (r: MarketState)
    ensures
        r == spec_parse_market_state(opt_str_view(s)),
{
    match s {
        Some(x) => if str_equal(x, "PRE") || str_equal(x, "PREPRE") {
            MarketState::Pre
        } else if str_equal(x, "REGULAR") {
            MarketState::Regular
        } else if str_equal(x, "POST") || str_equal(x, "POSTPOST") {
            MarketState::Post
        } else {
            MarketState::Closed
        },
        None => MarketState::Closed,
    }
}

/// The instrument type named by the quote source's `instrumentType` string.
pub open spec fn spec_parse_quote_type(s: Option<Seq<char>>) -> QuoteType {
    match s {
        Some(x) => if x == "EQUITY"@ {
            QuoteType::Equity
        } else if x == "CRYPTOCURRENCY"@ {
            QuoteType::Cryptocurrency
        } else if x == "ETF"@ {
            QuoteType::Etf
        } else if x == "MUTUALFUND"@ {
            QuoteType::MutualFund
        } else if x == "INDEX"@ {
            QuoteType::Index
        } else if x == "CURRENCY"@ {
            QuoteType::Currency
        } else if x == "FUTURE"@ {
            QuoteType::Future
        } else if x == "OPTION"@ {
            QuoteType::Option
        } else {
            QuoteType::Equity
        },
        None => QuoteType::Equity,
    }
}

/// Parse the instrument type reported by the quote source; anything unknown
/// is treated as an equity.
pub fn parse_quote_type(s: Option<&str>) -> (r: QuoteType)
    ensures
        r == spec_parse_quote_type(opt_str_view(s)),
{
    match s {
        Some(x) => if str_equal(x, "EQUITY") {
            QuoteType::Equity
        } else if str_equal(x, "CRYPTOCURRENCY") {
            QuoteType::Cryptocurrency
        } else if str_equal(x, "ETF") {
            QuoteType::Etf
        } else if str_equal(x, "MUTUALFUND") {
            QuoteType::MutualFund
        } else if str_equal(x, "INDEX") {
            QuoteType::Index
        } else if str_equal(x, "CURRENCY") {
            QuoteType::Currency
        } else if str_equal(x, "FUTURE") {
            QuoteType::Future
        } else if str_equal(x, "OPTION") {
            QuoteType::Option
        } else {
            QuoteType::Equity
        },
        None => QuoteType::Equity,
    }
}

/// The built-in shortcuts for common cryptocurrencies.
pub open spec fn spec_builtin_shortcut(s: Seq<char>) -> Option<Seq<char>> {
    if s == "BTC"@ { Some("BTC-USD"@) }
    else if s == "ETH"@ { Some("ETH-USD"@) }
    else if s == "SOL"@ { Some("SOL-USD"@) }
    else if s == "ADA"@ { Some("ADA-USD"@) }
    else if s == "DOT"@ { Some("DOT-USD"@) }
    else if s == "DOGE"@ { Some("DOGE-USD"@) }
    else if s == "XRP"@ { Some("XRP-USD"@) }
    else if s == "AVAX"@ { Some("AVAX-USD"@) }
    else if s == "MATIC"@ { Some("MATIC-USD"@) }
    else if s == "LINK"@ { Some("LINK-USD"@) }
    else if s == "UNI"@ { Some("UNI-USD"@) }
    else if s == "ATOM"@ { Some("ATOM-USD"@) }
    else if s == "LTC"@ { Some("LTC-USD"@) }
    else { None }
}

fn builtin_shortcut(s: &str) -> (r: Option<&'static str>)
    ensures
        match r {
            Some(f) => spec_builtin_shortcut(s@) == Some(f@),
            None => spec_builtin_shortcut(s@) is None,
        },
{
    if str_equal(s, "BTC") { Some("BTC-USD") }
    else if str_equal(s, "ETH") { Some("ETH-USD") }
    else if str_equal(s, "SOL") { Some("SOL-USD") }
    else if str_equal(s, "ADA") { Some("ADA-USD") }
    else if str_equal(s, "DOT") { Some("DOT-USD") }
    else if str_equal(s, "DOGE") { Some("DOGE-USD") }
    else if str_equal(s, "XRP") { Some("XRP-USD") }
    else if str_equal(s, "AVAX") { Some("AVAX-USD") }
    else if str_equal(s, "MATIC") { Some("MATIC-USD") }
    else if str_equal(s, "LINK") { Some("LINK-USD") }
    else if str_equal(s, "UNI") { Some("UNI-USD") }
    else if str_equal(s, "ATOM") { Some("ATOM-USD") }
    else if str_equal(s, "LTC") { Some("LTC-USD") }
    else { None }
}

/// `s` ends in the crypto shorthand suffix `.X`.
pub open spec fn has_x_suffix(s: Seq<char>) -> bool {
    s.len() >= 2 && s[s.len() - 2] == '.' && s[s.len() - 1] == 'X'
}

/// A symbol with the built-in shortcuts applied: `BASE.X` becomes `BASE-USD`,
/// a built-in shortcut becomes its full symbol, anything else stays as is.
pub open spec fn spec_expand_symbol(s: Seq<char>) -> Seq<char> {
    if has_x_suffix(s) {
        s.subrange(0, s.len() - 2) + seq!['-', 'U', 'S', 'D']
    } else {
        match spec_builtin_shortcut(s) {
            Some(full) => full,
            None => s,
        }
    }
}

/// Expand a symbol using built-in shortcuts only.
pub fn expand_symbol(symbol: &str) -> (r: String)
    ensures
        r@ == spec_expand_symbol(symbol@),
{
    let cs = chars_of(symbol);
    let n = cs.len();
    if n >= 2 && cs[n - 2] == '.' && cs[n - 1] == 'X' {
        let mut out = string_from_range(&cs, 0, n - 2);
        push_char(&mut out, '-');
        push_char(&mut out, 'U');
        push_char(&mut out, 'S');
        push_char(&mut out, 'D');
        assert(out@ == cs@.subrange(0, n - 2) + seq!['-', 'U', 'S', 'D']);
        return out;
    }
    match builtin_shortcut(symbol) {
        Some(full) => copy_str(full),
        None => string_from_chars(&cs),
    }
}

/// The custom shortcut for `s`, if the map has one: the map's entries taken
/// by the characters of key and value.
pub open spec fn spec_custom_shortcut(custom: Map<Seq<char>, Seq<char>>, s: Seq<char>) -> Option<
    Seq<char>,
> {
    if custom.contains_key(s) {
        Some(custom[s])
    } else {
        None
    }
}

/// `std::collections::HashMap::get` on a map keyed by `String`, looked up by
/// the characters of `symbol`.
/// Claimed: the result is the value stored under the key whose characters
/// equal `symbol`'s, or `None` when no key has them (`String` keys compare
/// and hash by their characters, so at most one key matches).
#[verifier::external_body]
fn lookup_shortcut<'a>(custom: &'a HashMap<String, String>, symbol: &str) -> (r: Option<&'a String>)
    ensures
        match r {
            Some(v) => spec_custom_shortcut(custom.deep_view(), symbol@) == Some(v@),
            None => spec_custom_shortcut(custom.deep_view(), symbol@) is None,
        },
{
    custom.get(symbol)
}

/// A symbol with the custom shortcuts applied first and then the built-in ones.
pub open spec fn spec_expand_symbol_with(custom: Map<Seq<char>, Seq<char>>, s: Seq<char>) -> Seq<
    char,
> {
    match spec_custom_shortcut(custom, s) {
        Some(full) => full,
        None => spec_expand_symbol(s),
    }
}

/// Expand a symbol using custom shortcuts first, then built-in defaults.
pub fn expand_symbol_with(symbol: &str, custom: &HashMap<String, String>) -> (r: String)
    ensures
        r@ == spec_expand_symbol_with(custom.deep_view(), symbol@),
{
    match lookup_shortcut(custom, symbol) {
        Some(expanded) => copy_str(expanded.as_str()),
        None => expand_symbol(symbol),
    }
}

/// The characters of each string of a list.
pub open spec fn views(v: Seq<String>) -> Seq<Seq<char>> {
    v.map_values(|x: String| x@)
}

/// `s` with every repeated entry dropped, keeping first occurrences in order.
pub open spec fn dedup(s: Seq<Seq<char>>) -> Seq<Seq<char>>
    decreases s.len(),
{
    if s.len() == 0 {
        Seq::empty()
    } else {
        let d = dedup(s.drop_last());
        if d.contains(s.last()) {
            d
        } else {
            d.push(s.last())
        }
    }
}

/// Whether one of the strings of `v` holds the characters of `s`.
pub fn contains_symbol(v: &Vec<String>, s: &str) -> (r: bool)
    ensures
        r == views(v@).contains(s@),
{
    let mut i: usize = 0;
    while i < v.len()
        invariant
            i <= v.len(),
            forall|j: int| 0 <= j < i ==> v@[j]@ != s@,
        decreases v.len() - i,
    {
        if str_equal(v[i].as_str(), s) {
            assert(views(v@)[i as int] == s@);
            return true;
        }
        i = i + 1;
    }
    proof {
        if views(v@).contains(s@) {
            let j = choose|j: int| 0 <= j < views(v@).len() && views(v@)[j] == s@;
            assert(v@[j]@ == s@);
        }
    }
    false
}

/// The symbols of `candidates`, each once, in order of first appearance.
pub fn unique_symbols(candidates: &Vec<String>) -> (r: Vec<String>)
    ensures
        views(r@) == dedup(views(candidates@)),
{
    let mut out: Vec<String> = Vec::new();
    let mut i: usize = 0;
    while i < candidates.len()
        invariant
            i <= candidates.len(),
            views(out@) == dedup(views(candidates@).take(i as int)),
        decreases candidates.len() - i,
    {
        let ghost pre = views(candidates@).take(i as int);
        assert(views(candidates@).take(i + 1).drop_last() == pre);
        assert(views(candidates@).take(i + 1).last() == candidates@[i as int]@);
        if !contains_symbol(&out, candidates[i].as_str()) {
            let c = copy_str(candidates[i].as_str());
            out.push(c);
            assert(views(out@) == views(out@).drop_last().push(c@));
        }
        i = i + 1;
    }
    assert(views(candidates@).take(candidates.len() as int) == views(candidates@));
    out
}

/// Every symbol of a list, deduplicated, has its first occurrence kept: the
/// result holds no symbol twice and holds exactly the symbols of the input.
pub proof fn lemma_dedup_unique(s: Seq<Seq<char>>)
    ensures
        dedup(s).no_duplicates(),
        forall|x: Seq<char>| dedup(s).contains(x) <==> s.contains(x),
    decreases s.len(),
{
    if s.len() > 0 {
        lemma_dedup_unique(s.drop_last());
        let d = dedup(s.drop_last());
        assert forall|x: Seq<char>| dedup(s).contains(x) <==> s.contains(x) by {
            if s.contains(x) && x != s.last() {
                let j = choose|j: int| 0 <= j < s.len() && s[j] == x;
                assert(s.drop_last()[j] == x);
            }
            if s.drop_last().contains(x) {
                let j = choose|j: int| 0 <= j < s.drop_last().len() && s.drop_last()[j] == x;
                assert(s[j] == x);
            }
            if !d.contains(s.last()) {
                assert(d.push(s.last()).last() == s.last());
                if d.push(s.last()).contains(x) && x != s.last() {
                    let j = choose|j: int| 0 <= j < d.push(s.last()).len() && d.push(s.last())[j] == x;
                    assert(d[j] == x);
                }
                if d.contains(x) {
                    let j = choose|j: int| 0 <= j < d.len() && d[j] == x;
                    assert(d.push(s.last())[j] == x);
                }
            }
        }
        if !d.contains(s.last()) {
            assert forall|i: int, j: int|
                0 <= i < d.push(s.last()).len() && 0 <= j < d.push(s.last()).len() && i != j
                implies d.push(s.last())[i] != d.push(s.last())[j] by {
                if i == d.len() as int {
                    assert(d[j] == d.push(s.last())[j]);
                } else if j == d.len() as int {
                    assert(d[i] == d.push(s.last())[i]);
                }
            }
        }
    }
}

/// No built-in shortcut name holds a `-`, so a symbol with one is left as it is.
proof fn lemma_no_shortcut_with_dash(t: Seq<char>, i: int)
    requires
        0 <= i < t.len(),
        t[i] == '-',
    ensures
        spec_builtin_shortcut(t) is None,
{
    reveal_strlit("BTC");
    reveal_strlit("ETH");
    reveal_strlit("SOL");
    reveal_strlit("ADA");
    reveal_strlit("DOT");
    reveal_strlit("DOGE");
    reveal_strlit("XRP");
    reveal_strlit("AVAX");
    reveal_strlit("MATIC");
    reveal_strlit("LINK");
    reveal_strlit("UNI");
    reveal_strlit("ATOM");
    reveal_strlit("LTC");
    if spec_builtin_shortcut(t) is Some {
        assert(t[i] != '-');
    }
}

/// Expanding a symbol twice gives what expanding it once gives: the built-in
/// shortcuts leave every symbol they produce as it is.
pub proof fn lemma_expand_symbol_idempotent(s: Seq<char>)
    ensures
        spec_expand_symbol(spec_expand_symbol(s)) == spec_expand_symbol(s),
{
    reveal_strlit("BTC");
    reveal_strlit("BTC-USD");
    reveal_strlit("ETH");
    reveal_strlit("ETH-USD");
    reveal_strlit("SOL");
    reveal_strlit("SOL-USD");
    reveal_strlit("ADA");
    reveal_strlit("ADA-USD");
    reveal_strlit("DOT");
    reveal_strlit("DOT-USD");
    reveal_strlit("DOGE");
    reveal_strlit("DOGE-USD");
    reveal_strlit("XRP");
    reveal_strlit("XRP-USD");
    reveal_strlit("AVAX");
    reveal_strlit("AVAX-USD");
    reveal_strlit("MATIC");
    reveal_strlit("MATIC-USD");
    reveal_strlit("LINK");
    reveal_strlit("LINK-USD");
    reveal_strlit("UNI");
    reveal_strlit("UNI-USD");
    reveal_strlit("ATOM");
    reveal_strlit("ATOM-USD");
    reveal_strlit("LTC");
    reveal_strlit("LTC-USD");
    let t = spec_expand_symbol(s);
    if has_x_suffix(s) || spec_builtin_shortcut(s) is Some {
        assert(t.len() >= 4 && t[t.len() - 4] == '-' && t[t.len() - 1] == 'D');
        assert(!has_x_suffix(t));
        lemma_no_shortcut_with_dash(t, t.len() - 4);
    }
}

} // verus!
