//! Ordering of quotes for display: a stable sort by one column, ascending or
//! descending.
use vstd::prelude::*;
use crate::models::{Quote, SortDirection, SortOrder};
use crate::text::{compare_str, flip, int_order, lemma_lex_flip, lemma_lex_trans, lex_order, Order};

verus! {

/// Optional values ordered with `None` first, then by value.
pub open spec fn opt_order(a: Option<u64>, b: Option<u64>) -> Order {
    match (a, b) {
        (None, None) => Order::Equal,
        (None, Some(_)) => Order::Less,
        (Some(_), None) => Order::Greater,
        (Some(x), Some(y)) => int_order(x as int, y as int),
    }
}

/// How two quotes compare in the column `by`.
pub open spec fn quote_order(a: Quote, b: Quote, by: SortOrder) -> Order {
    match by {
        SortOrder::Symbol => lex_order(a.symbol@, b.symbol@),
        SortOrder::Name => lex_order(a.name@, b.name@),
        SortOrder::Price => int_order(a.price_key as int, b.price_key as int),
        SortOrder::Change => int_order(a.change_key as int, b.change_key as int),
        SortOrder::ChangePercent => int_order(
            a.change_percent_key as int,
            b.change_percent_key as int,
        ),
        SortOrder::Volume => int_order(a.volume as int, b.volume as int),
        SortOrder::MarketCap => opt_order(a.market_cap, b.market_cap),
    }
}

/// The comparison in the given direction: descending reverses it.
pub open spec fn directed(o: Order, dir: SortDirection) -> Order {
    match dir {
        SortDirection::Ascending => o,
        SortDirection::Descending => flip(o),
    }
}

/// How two quotes compare for display.
pub open spec fn display_order(a: Quote, b: Quote, by: SortOrder, dir: SortDirection) -> Order {
    directed(quote_order(a, b, by), dir)
}

/// `x` placed into the ordered sequence `s` after every element that does not
/// come after it: the step of a stable insertion sort.
pub open spec fn sorted_insert(s: Seq<Quote>, x: Quote, by: SortOrder, dir: SortDirection) -> Seq<
    Quote,
>
    decreases s.len(),
{
    if s.len() == 0 {
        seq![x]
    } else if display_order(s.last(), x, by, dir) == Order::Greater {
        sorted_insert(s.drop_last(), x, by, dir).push(s.last())
    } else {
        s.push(x)
    }
}

/// The stable sort of `s`: the order that `slice::sort_by` gives.
pub open spec fn sorted_quotes(s: Seq<Quote>, by: SortOrder, dir: SortDirection) -> Seq<Quote>
    decreases s.len(),
{
    if s.len() == 0 {
        Seq::empty()
    } else {
        sorted_insert(sorted_quotes(s.drop_last(), by, dir), s.last(), by, dir)
    }
}

fn compare_u64(a: u64, b: u64) -> (r: Order)
    ensures
        r == int_order(a as int, b as int),
{
    if a < b {
        Order::Less
    } else if a == b {
        Order::Equal
    } else {
        Order::Greater
    }
}

fn compare_i64(a: i64, b: i64) -> (r: Order)
    ensures
        r == int_order(a as int, b as int),
{
    if a < b {
        Order::Less
    } else if a == b {
        Order::Equal
    } else {
        Order::Greater
    }
}

/// How two quotes compare in the column `by`.
pub fn compare_quotes(a: &Quote, b: &Quote, by: SortOrder) -> (r: Order)
    ensures
        r == quote_order(*a, *b, by),
{
    match by {
        SortOrder::Symbol => compare_str(a.symbol.as_str(), b.symbol.as_str()),
        SortOrder::Name => compare_str(a.name.as_str(), b.name.as_str()),
        SortOrder::Price => compare_i64(a.price_key, b.price_key),
        SortOrder::Change => compare_i64(a.change_key, b.change_key),
        SortOrder::ChangePercent => compare_i64(a.change_percent_key, b.change_percent_key),
        SortOrder::Volume => compare_u64(a.volume, b.volume),
        SortOrder::MarketCap => match (a.market_cap, b.market_cap) {
            (None, None) => Order::Equal,
            (None, Some(_)) => Order::Less,
            (Some(_), None) => Order::Greater,
            (Some(x), Some(y)) => compare_u64(x, y),
        },
    }
}

fn directed_exec(o: Order, dir: SortDirection) -> (r: Order)
    ensures
        r == directed(o, dir),
{
    match dir {
        SortDirection::Ascending => o,
        SortDirection::Descending => match o {
            Order::Less => Order::Greater,
            Order::Equal => Order::Equal,
            Order::Greater => Order::Less,
        },
    }
}

/// Inserting at the first position after which every element comes after `x`
/// is `sorted_insert`.
proof fn lemma_sorted_insert_at(
    s: Seq<Quote>,
    x: Quote,
    by: SortOrder,
    dir: SortDirection,
    p: int,
)
    requires
        0 <= p <= s.len(),
        forall|k: int| p <= k < s.len() ==> display_order(#[trigger] s[k], x, by, dir)
            == Order::Greater,
        p > 0 ==> display_order(s[p - 1], x, by, dir) != Order::Greater,
    ensures
        sorted_insert(s, x, by, dir) == s.insert(p, x),
    decreases s.len(),
{
    if s.len() == 0 {
        assert(s.insert(p, x) =~= seq![x]);
    } else if p == s.len() {
        assert(s.insert(p, x) =~= s.push(x));
    } else {
        assert(display_order(s.last(), x, by, dir) == Order::Greater);
        lemma_sorted_insert_at(s.drop_last(), x, by, dir, p);
        assert(s.drop_last().insert(p, x).push(s.last()) =~= s.insert(p, x));
    }
}

/// `v` in display order: the stable sort by column `by` in direction `dir`.
pub fn sort_quotes_by(v: Vec<Quote>, by: SortOrder, dir: SortDirection) -> (r: Vec<Quote>)
    ensures
        r@ == sorted_quotes(v@, by, dir),
{
    let ghost orig = v@;
    let mut rest = v;
    let mut out: Vec<Quote> = Vec::new();
    let mut k: usize = 0;
    assert(orig.len() == rest.len());
    assert(orig.skip(0) == orig);
    while rest.len() > 0
        invariant
            k + rest.len() == orig.len(),
            orig.len() <= usize::MAX,
            rest@ == orig.skip(k as int),
            out@ == sorted_quotes(orig.take(k as int), by, dir),
        decreases rest.len(),
    {
        let x = rest.remove(0);
        assert(orig.take(k + 1).drop_last() == orig.take(k as int));
        assert(orig.take(k + 1).last() == x);
        assert(rest@ == orig.skip(k + 1));
        let mut p = out.len();
        while p > 0 && directed_exec(compare_quotes(&out[p - 1], &x, by), dir) == Order::Greater
            invariant
                p <= out.len(),
                forall|j: int| p <= j < out.len() ==> display_order(#[trigger] out@[j], x, by, dir)
                    == Order::Greater,
            decreases p,
        {
            p = p - 1;
        }
        proof {
            lemma_sorted_insert_at(out@, x, by, dir, p as int);
        }
        out.insert(p, x);
        k = k + 1;
    }
    assert(orig.take(orig.len() as int) == orig);
    out
}

/// No quote of `s` comes after a later one.
pub open spec fn is_sorted(s: Seq<Quote>, by: SortOrder, dir: SortDirection) -> bool {
    forall|i: int, j: int| 0 <= i < j < s.len() ==> display_order(s[i], s[j], by, dir) != Order::Greater
}

proof fn lemma_quote_flip(a: Quote, b: Quote, by: SortOrder)
    ensures
        quote_order(a, b, by) == flip(quote_order(b, a, by)),
{
    match by {
        SortOrder::Symbol => lemma_lex_flip(a.symbol@, b.symbol@),
        SortOrder::Name => lemma_lex_flip(a.name@, b.name@),
        _ => {},
    }
}

proof fn lemma_quote_trans(a: Quote, b: Quote, c: Quote, by: SortOrder)
    requires
        quote_order(a, b, by) != Order::Greater,
        quote_order(b, c, by) != Order::Greater,
    ensures
        quote_order(a, c, by) != Order::Greater,
{
    match by {
        SortOrder::Symbol => lemma_lex_trans(a.symbol@, b.symbol@, c.symbol@),
        SortOrder::Name => lemma_lex_trans(a.name@, b.name@, c.name@),
        _ => {},
    }
}

/// Display order read the other way round flips.
pub proof fn lemma_display_flip(a: Quote, b: Quote, by: SortOrder, dir: SortDirection)
    ensures
        display_order(a, b, by, dir) == flip(display_order(b, a, by, dir)),
{
    lemma_quote_flip(a, b, by);
}

/// In display order, not coming after is transitive.
pub proof fn lemma_display_trans(a: Quote, b: Quote, c: Quote, by: SortOrder, dir: SortDirection)
    requires
        display_order(a, b, by, dir) != Order::Greater,
        display_order(b, c, by, dir) != Order::Greater,
    ensures
        display_order(a, c, by, dir) != Order::Greater,
{
    match dir {
        SortDirection::Ascending => lemma_quote_trans(a, b, c, by),
        SortDirection::Descending => {
            lemma_quote_flip(a, b, by);
            lemma_quote_flip(b, c, by);
            lemma_quote_flip(a, c, by);
            lemma_quote_trans(c, b, a, by);
        },
    }
}

proof fn lemma_sorted_insert(s: Seq<Quote>, x: Quote, by: SortOrder, dir: SortDirection)
    ensures
        sorted_insert(s, x, by, dir).to_multiset() == s.to_multiset().insert(x),
        sorted_insert(s, x, by, dir).len() == s.len() + 1,
        is_sorted(s, by, dir) ==> is_sorted(sorted_insert(s, x, by, dir), by, dir),
    decreases s.len(),
{
    broadcast use vstd::seq_lib::group_to_multiset_ensures;
    broadcast use vstd::multiset::group_multiset_axioms;
    let r = sorted_insert(s, x, by, dir);
    if s.len() == 0 {
        assert(seq![x] =~= Seq::<Quote>::empty().push(x));
        assert(s.to_multiset() =~= vstd::multiset::Multiset::empty());
    } else if display_order(s.last(), x, by, dir) == Order::Greater {
        let t = s.drop_last();
        let rp = sorted_insert(t, x, by, dir);
        lemma_sorted_insert(t, x, by, dir);
        assert(s =~= t.push(s.last()));
        assert(r.to_multiset() =~= s.to_multiset().insert(x));
        if is_sorted(s, by, dir) {
            assert(is_sorted(t, by, dir));
            assert forall|k: int| 0 <= k < rp.len() implies display_order(rp[k], s.last(), by, dir) != Order::Greater by {
                assert(rp.to_multiset().count(rp[k]) > 0);
                if rp[k] != x {
                    assert(t.to_multiset().count(rp[k]) > 0);
                    assert(t.contains(rp[k]));
                    let j = choose|j: int| 0 <= j < t.len() && t[j] == rp[k];
                    assert(s[j] == rp[k]);
                } else {
                    lemma_display_flip(x, s.last(), by, dir);
                }
            }
            assert forall|i: int, j: int| 0 <= i < j < r.len() implies display_order(r[i], r[j], by, dir) != Order::Greater by {
                if j == r.len() - 1 {
                    assert(r[j] == s.last());
                    assert(r[i] == rp[i]);
                } else {
                    assert(r[i] == rp[i]);
                    assert(r[j] == rp[j]);
                }
            }
        }
    } else {
        if is_sorted(s, by, dir) {
            assert forall|i: int, j: int| 0 <= i < j < r.len() implies display_order(r[i], r[j], by, dir) != Order::Greater by {
                if j == r.len() - 1 {
                    if i < s.len() - 1 {
                        lemma_display_trans(s[i], s.last(), x, by, dir);
                    }
                }
            }
        }
    }
}

/// The sorted quotes are ordered for display and are the same quotes as
/// before, each as often.
pub proof fn lemma_sorted_quotes(s: Seq<Quote>, by: SortOrder, dir: SortDirection)
    ensures
        is_sorted(sorted_quotes(s, by, dir), by, dir),
        sorted_quotes(s, by, dir).to_multiset() == s.to_multiset(),
        sorted_quotes(s, by, dir).len() == s.len(),
    decreases s.len(),
{
    broadcast use vstd::seq_lib::group_to_multiset_ensures;
    if s.len() == 0 {
        assert(s.to_multiset() =~= vstd::multiset::Multiset::empty());
        assert(Seq::<Quote>::empty().to_multiset() =~= vstd::multiset::Multiset::empty());
    } else {
        lemma_sorted_quotes(s.drop_last(), by, dir);
        lemma_sorted_insert(sorted_quotes(s.drop_last(), by, dir), s.last(), by, dir);
        assert(s =~= s.drop_last().push(s.last()));
    }
}

/// Sorting quotes that are already in display order changes nothing; in
/// particular sorting twice is sorting once.
pub proof fn lemma_sort_sorted(s: Seq<Quote>, by: SortOrder, dir: SortDirection)
    requires
        is_sorted(s, by, dir),
    ensures
        sorted_quotes(s, by, dir) == s,
    decreases s.len(),
{
    if s.len() > 0 {
        let t = s.drop_last();
        assert(is_sorted(t, by, dir));
        lemma_sort_sorted(t, by, dir);
        if t.len() > 0 {
            assert(display_order(t.last(), s.last(), by, dir) != Order::Greater);
        }
        assert(t.push(s.last()) =~= s);
    }
}

/// Sorting twice with the same settings gives what sorting once gives.
pub proof fn lemma_sort_idempotent(s: Seq<Quote>, by: SortOrder, dir: SortDirection)
    ensures
        sorted_quotes(sorted_quotes(s, by, dir), by, dir) == sorted_quotes(s, by, dir),
{
    lemma_sorted_quotes(s, by, dir);
    lemma_sort_sorted(sorted_quotes(s, by, dir), by, dir);
}

/// Sorting by a numeric column orders the quotes by that field: ascending,
/// each quote's field is at most any later one's; descending, at least. A
/// quote without a market capitalization comes before (ascending) or after
/// (descending) every quote with one.
pub proof fn lemma_sort_orders_by_column(s: Seq<Quote>, by: SortOrder, dir: SortDirection)
    ensures
        forall|i: int, j: int|
            #![trigger sorted_quotes(s, by, dir)[i], sorted_quotes(s, by, dir)[j]]
            0 <= i < j < sorted_quotes(s, by, dir).len() ==> {
                let a = sorted_quotes(s, by, dir)[i];
                let b = sorted_quotes(s, by, dir)[j];
                let up = dir == SortDirection::Ascending;
                &&& by == SortOrder::Price ==> (if up { a.price_key <= b.price_key } else { a.price_key >= b.price_key })
                &&& by == SortOrder::Change ==> (if up { a.change_key <= b.change_key } else { a.change_key >= b.change_key })
                &&& by == SortOrder::ChangePercent ==> (if up {
                    a.change_percent_key <= b.change_percent_key
                } else {
                    a.change_percent_key >= b.change_percent_key
                })
                &&& by == SortOrder::Volume ==> (if up { a.volume <= b.volume } else { a.volume >= b.volume })
                &&& by == SortOrder::MarketCap ==> (if up {
                    (a.market_cap is Some ==> b.market_cap is Some && a.market_cap->0 <= b.market_cap->0)
                } else {
                    (b.market_cap is Some ==> a.market_cap is Some && a.market_cap->0 >= b.market_cap->0)
                })
            },
{
    lemma_sorted_quotes(s, by, dir);
    let r = sorted_quotes(s, by, dir);
    assert forall|i: int, j: int|
        #![trigger r[i], r[j]]
        0 <= i < j < r.len() implies {
            let a = r[i];
            let b = r[j];
            let up = dir == SortDirection::Ascending;
            &&& by == SortOrder::Price ==> (if up { a.price_key <= b.price_key } else { a.price_key >= b.price_key })
            &&& by == SortOrder::Change ==> (if up { a.change_key <= b.change_key } else { a.change_key >= b.change_key })
            &&& by == SortOrder::ChangePercent ==> (if up {
                a.change_percent_key <= b.change_percent_key
            } else {
                a.change_percent_key >= b.change_percent_key
            })
            &&& by == SortOrder::Volume ==> (if up { a.volume <= b.volume } else { a.volume >= b.volume })
            &&& by == SortOrder::MarketCap ==> (if up {
                (a.market_cap is Some ==> b.market_cap is Some && a.market_cap->0 <= b.market_cap->0)
            } else {
                (b.market_cap is Some ==> a.market_cap is Some && a.market_cap->0 >= b.market_cap->0)
            })
        } by {
        assert(display_order(r[i], r[j], by, dir) != Order::Greater);
    }
}

} // verus!
