//! The CSV side of watchlist export and import: field quoting for export and
//! the symbol column for import.
use vstd::prelude::*;
use crate::text::{chars_of, push_char, string_from_chars};

verus! {

/// Characters that force a CSV field to be quoted.
pub open spec fn csv_special(c: char) -> bool {
    c == ',' || c == '"' || c == '\n' || c == '\r'
}

/// `s` holds a character that forces quoting.
pub open spec fn needs_quoting(s: Seq<char>) -> bool {
    exists|i: int| 0 <= i < s.len() && csv_special(#[trigger] s[i])
}

/// `s` with every double quote doubled.
pub open spec fn double_quotes(s: Seq<char>) -> Seq<char>
    decreases s.len(),
{
    if s.len() == 0 {
        Seq::empty()
    } else if s.last() == '"' {
        double_quotes(s.drop_last()) + seq!['"', '"']
    } else {
        double_quotes(s.drop_last()).push(s.last())
    }
}

/// A CSV field as RFC 4180 writes it: quoted, with inner quotes doubled, when
/// it holds a comma, quote, or line break; as is otherwise.
pub open spec fn spec_csv_escape(s: Seq<char>) -> Seq<char> {
    if needs_quoting(s) {
        seq!['"'] + double_quotes(s) + seq!['"']
    } else {
        s
    }
}

/// RFC 4180 CSV field escaping.
pub fn csv_escape_field(field: &str) -> (r: String)
    ensures
        r@ == spec_csv_escape(field@),
{
    let cs = chars_of(field);
    let mut special = false;
    let mut i: usize = 0;
    while i < cs.len()
        invariant
            i <= cs.len(),
            cs@ == field@,
            special == exists|k: int| 0 <= k < i && csv_special(#[trigger] cs@[k]),
        decreases cs.len() - i,
    {
        let c = cs[i];
        if c == ',' || c == '"' || c == '\n' || c == '\r' {
            special = true;
        }
        i = i + 1;
    }
    if !special {
        return string_from_chars(&cs);
    }
    let mut out = String::new();
    push_char(&mut out, '"');
    let mut j: usize = 0;
    while j < cs.len()
        invariant
            j <= cs.len(),
            cs@ == field@,
            out@ == seq!['"'] + double_quotes(cs@.take(j as int)),
        decreases cs.len() - j,
    {
        let c = cs[j];
        assert(cs@.take(j + 1).drop_last() == cs@.take(j as int));
        assert(cs@.take(j + 1).last() == c);
        push_char(&mut out, c);
        if c == '"' {
            push_char(&mut out, '"');
        }
        j = j + 1;
    }
    assert(cs@.take(cs.len() as int) == cs@);
    push_char(&mut out, '"');
    out
}

/// The lines of a text as `str::lines` gives them, before carriage returns
/// are dropped: the pieces between line feeds, without an empty last piece.
pub open spec fn split_lines(s: Seq<char>) -> Seq<Seq<char>> {
    let p = split_newlines(s);
    if p.last().len() == 0 {
        p.drop_last()
    } else {
        p
    }
}

/// The pieces of `s` between line feeds (always at least one piece).
pub open spec fn split_newlines(s: Seq<char>) -> Seq<Seq<char>>
    decreases s.len(),
{
    if s.len() == 0 {
        seq![Seq::empty()]
    } else {
        let p = split_newlines(s.drop_last());
        if s.last() == '\n' {
            p.push(Seq::empty())
        } else {
            p.update(p.len() - 1, p.last().push(s.last()))
        }
    }
}

proof fn lemma_split_newlines_nonempty(s: Seq<char>)
    ensures
        split_newlines(s).len() >= 1,
    decreases s.len(),
{
    if s.len() > 0 {
        lemma_split_newlines_nonempty(s.drop_last());
    }
}

/// The characters `char::is_whitespace` accepts (Unicode `White_Space`).
pub open spec fn is_whitespace(c: char) -> bool {
    ||| ('\t' <= c && c <= '\r')
    ||| c == ' '
    ||| c == '\u{85}'
    ||| c == '\u{A0}'
    ||| c == '\u{1680}'
    ||| ('\u{2000}' <= c && c <= '\u{200A}')
    ||| c == '\u{2028}'
    ||| c == '\u{2029}'
    ||| c == '\u{202F}'
    ||| c == '\u{205F}'
    ||| c == '\u{3000}'
}

fn is_whitespace_exec(c: char) -> (r: bool)
    ensures
        r == is_whitespace(c),
{
    ('\t' <= c && c <= '\r') || c == ' ' || c == '\u{85}' || c == '\u{A0}' || c == '\u{1680}'
        || ('\u{2000}' <= c && c <= '\u{200A}') || c == '\u{2028}' || c == '\u{2029}' || c
        == '\u{202F}' || c == '\u{205F}' || c == '\u{3000}'
}

/// The characters trimmed from a field: whitespace, or the double quote.
pub open spec fn trim_class(c: char, quotes: bool) -> bool {
    if quotes {
        c == '"'
    } else {
        is_whitespace(c)
    }
}

/// `s` without its leading characters of the class.
pub open spec fn trim_start(s: Seq<char>, quotes: bool) -> Seq<char>
    decreases s.len(),
{
    if s.len() > 0 && trim_class(s[0], quotes) {
        trim_start(s.drop_first(), quotes)
    } else {
        s
    }
}

/// `s` without its trailing characters of the class.
pub open spec fn trim_end(s: Seq<char>, quotes: bool) -> Seq<char>
    decreases s.len(),
{
    if s.len() > 0 && trim_class(s.last(), quotes) {
        trim_end(s.drop_last(), quotes)
    } else {
        s
    }
}

/// `s` without leading and trailing characters of the class, as `str::trim`
/// (whitespace) and `str::trim_matches('"')` (quotes) give it.
pub open spec fn trim_both(s: Seq<char>, quotes: bool) -> Seq<char> {
    trim_end(trim_start(s, quotes), quotes)
}

/// The part of a line before its first comma (the whole line without one).
pub open spec fn first_field(line: Seq<char>) -> Seq<char>
    decreases line.len(),
{
    if line.len() == 0 {
        line
    } else if line[0] == ',' {
        Seq::empty()
    } else {
        seq![line[0]] + first_field(line.drop_first())
    }
}

/// The symbol written in the first column of a data line: the first field,
/// trimmed of whitespace and then of double quotes.
pub open spec fn line_symbol(line: Seq<char>) -> Seq<char> {
    trim_both(trim_both(first_field(line), false), true)
}

/// The non-empty symbols of a sequence of data lines, in order.
pub open spec fn data_symbols(lines: Seq<Seq<char>>) -> Seq<Seq<char>>
    decreases lines.len(),
{
    if lines.len() == 0 {
        Seq::empty()
    } else {
        let rest = data_symbols(lines.drop_last());
        let s = line_symbol(lines.last());
        if s.len() > 0 {
            rest.push(s)
        } else {
            rest
        }
    }
}

/// The symbols of a CSV text: the non-empty first-column entries of the lines
/// after the header line, in order.
pub open spec fn spec_csv_symbols(content: Seq<char>) -> Seq<Seq<char>> {
    let lines = split_lines(content);
    if lines.len() == 0 {
        Seq::empty()
    } else {
        data_symbols(lines.drop_first())
    }
}

fn trim_class_exec(c: char, quotes: bool) -> (r: bool)
    ensures
        r == trim_class(c, quotes),
{
    if quotes {
        c == '"'
    } else {
        is_whitespace_exec(c)
    }
}

proof fn lemma_trim_start_skip(s: Seq<char>, quotes: bool, i: int)
    requires
        0 <= i < s.len(),
        trim_class(s[i], quotes),
    ensures
        trim_start(s.skip(i), quotes) == trim_start(s.skip(i + 1), quotes),
{
    assert(s.skip(i).drop_first() == s.skip(i + 1));
}

proof fn lemma_trim_end_take(s: Seq<char>, quotes: bool, j: int)
    requires
        0 < j <= s.len(),
        trim_class(s[j - 1], quotes),
    ensures
        trim_end(s.take(j), quotes) == trim_end(s.take(j - 1), quotes),
{
    assert(s.take(j).drop_last() == s.take(j - 1));
}

/// `cs[from..to]` trimmed on both ends by the class.
fn trim_range(cs: &Vec<char>, quotes: bool) -> (r: Vec<char>)
    ensures
        r@ == trim_both(cs@, quotes),
{
    let mut lo: usize = 0;
    assert(cs@.skip(0) == cs@);
    while lo < cs.len() && trim_class_exec(cs[lo], quotes)
        invariant
            lo <= cs.len(),
            trim_start(cs@, quotes) == trim_start(cs@.skip(lo as int), quotes),
        decreases cs.len() - lo,
    {
        proof {
            lemma_trim_start_skip(cs@, quotes, lo as int);
        }
        lo = lo + 1;
    }
    let ghost t = cs@.skip(lo as int);
    assert(trim_start(t, quotes) == t);
    let mut hi: usize = cs.len();
    assert(t.take(t.len() as int) == t);
    while hi > lo && trim_class_exec(cs[hi - 1], quotes)
        invariant
            lo <= hi <= cs.len(),
            t == cs@.skip(lo as int),
            trim_end(t, quotes) == trim_end(t.take(hi - lo), quotes),
        decreases hi,
    {
        proof {
            assert(t[hi - lo - 1] == cs@[hi - 1]);
            lemma_trim_end_take(t, quotes, hi - lo);
        }
        hi = hi - 1;
    }
    let mut out: Vec<char> = Vec::new();
    let mut k = lo;
    while k < hi
        invariant
            lo <= k <= hi <= cs.len(),
            out@ == cs@.subrange(lo as int, k as int),
        decreases hi - k,
    {
        out.push(cs[k]);
        assert(cs@.subrange(lo as int, k + 1) == cs@.subrange(lo as int, k as int).push(cs@[k as int]));
        k = k + 1;
    }
    assert(t.take(hi - lo) == cs@.subrange(lo as int, hi as int));
    out
}

fn first_field_exec(line: &Vec<char>) -> (r: Vec<char>)
    ensures
        r@ == first_field(line@),
{
    let mut i: usize = 0;
    let mut out: Vec<char> = Vec::new();
    assert(line@.skip(0) == line@);
    while i < line.len() && line[i] != ','
        invariant
            i <= line.len(),
            out@ == line@.take(i as int),
            first_field(line@) == out@ + first_field(line@.skip(i as int)),
        decreases line.len() - i,
    {
        assert(line@.skip(i as int).drop_first() == line@.skip(i + 1));
        assert(line@.take(i + 1) == line@.take(i as int).push(line@[i as int]));
        out.push(line[i]);
        i = i + 1;
    }
    out
}

/// The symbols of a CSV text: the non-empty first-column entries of the lines
/// after the header line, trimmed of whitespace and then of double quotes.
pub fn csv_symbols(content: &str) -> (r: Vec<String>)
    ensures
        r@.map_values(|x: String| x@) == spec_csv_symbols(content@),
{
    let cs = chars_of(content);
    // Split into pieces at line feeds.
    let mut pieces: Vec<Vec<char>> = Vec::new();
    pieces.push(Vec::new());
    let mut i: usize = 0;
    while i < cs.len()
        invariant
            i <= cs.len(),
            cs@ == content@,
            pieces.len() >= 1,
            pieces@.map_values(|p: Vec<char>| p@) == split_newlines(cs@.take(i as int)),
        decreases cs.len() - i,
    {
        assert(cs@.take(i + 1).drop_last() == cs@.take(i as int));
        let c = cs[i];
        if c == '\n' {
            pieces.push(Vec::new());
            assert(pieces@.map_values(|p: Vec<char>| p@) =~= split_newlines(cs@.take(i + 1)));
        } else {
            let last = pieces.len() - 1;
            let mut piece = pieces.remove(last);
            piece.push(c);
            pieces.push(piece);
            assert(pieces@.map_values(|p: Vec<char>| p@) =~= split_newlines(cs@.take(i + 1)));
        }
        i = i + 1;
    }
    assert(cs@.take(cs.len() as int) == cs@);
    let ghost all = split_newlines(cs@);
    let n_lines = if pieces[pieces.len() - 1].len() == 0 {
        pieces.len() - 1
    } else {
        pieces.len()
    };
    let ghost lines = split_lines(cs@);
    assert(lines.len() == n_lines);
    assert(forall|k: int| 0 <= k < n_lines ==> lines[k] == pieces@[k]@);
    let mut out: Vec<String> = Vec::new();
    let mut k: usize = 1;
    while k < n_lines
        invariant
            1 <= k <= n_lines || (n_lines == 0 && k == 1),
            n_lines <= pieces.len(),
            lines.len() == n_lines,
            forall|j: int| 0 <= j < n_lines ==> lines[j] == pieces@[j]@,
            out@.map_values(|x: String| x@) == data_symbols(lines.drop_first().take(k - 1)),
        decreases n_lines - k,
    {
        let field = first_field_exec(&pieces[k]);
        let trimmed = trim_range(&field, false);
        let sym = trim_range(&trimmed, true);
        assert(lines.drop_first().take(k as int).drop_last() == lines.drop_first().take(k - 1));
        assert(lines.drop_first().take(k as int).last() == pieces@[k as int]@);
        if sym.len() > 0 {
            let s = string_from_chars(&sym);
            out.push(s);
            assert(out@.map_values(|x: String| x@) =~= out@.drop_last().map_values(|x: String| x@).push(s@));
        }
        k = k + 1;
    }
    proof {
        if n_lines > 0 {
            assert(lines.drop_first().take(n_lines - 1) == lines.drop_first());
        }
    }
    out
}

/// A last line counts whether or not the text ends with a line feed: adding
/// the missing line feed after a text changes none of its CSV symbols.
pub proof fn lemma_csv_final_newline_optional(s: Seq<char>)
    requires
        s.len() == 0 || s.last() != '\n',
    ensures
        spec_csv_symbols(s.push('\n')) == spec_csv_symbols(s),
{
    let t = s.push('\n');
    assert(t.drop_last() =~= s);
    let p = split_newlines(s);
    assert(split_newlines(t) == p.push(Seq::<char>::empty()));
    assert(split_lines(t) =~= p);
    if s.len() > 0 {
        lemma_split_newlines_nonempty(s.drop_last());
        assert(p.last().len() > 0);
        assert(split_lines(s) == p);
    } else {
        assert(p =~= seq![Seq::<char>::empty()]);
        assert(split_lines(s) =~= Seq::<Seq<char>>::empty());
        assert(p.drop_first() =~= Seq::<Seq<char>>::empty());
    }
}

/// The line after the header yields its symbol even when no line feed ends
/// the text: a header line and one data line give that line's symbol, if it
/// has one.
pub proof fn lemma_csv_last_line_counts(header: Seq<char>, line: Seq<char>)
    requires
        !header.contains('\n'),
        !line.contains('\n'),
        line.len() > 0,
    ensures
        spec_csv_symbols(header + seq!['\n'] + line) == (if line_symbol(line).len() > 0 {
            seq![line_symbol(line)]
        } else {
            Seq::<Seq<char>>::empty()
        }),
{
    lemma_split_newlines_no_feed(header);
    let h = header.push('\n');
    assert(h.drop_last() =~= header);
    assert(split_newlines(h) == seq![header, Seq::<char>::empty()]);
    lemma_split_newlines_append(h, line);
    assert(header + seq!['\n'] + line =~= h + line);
    let pieces = split_newlines(h + line);
    assert(pieces =~= seq![header, line]);
    assert(pieces.last() == line);
    assert(split_lines(h + line) == pieces);
    let data = seq![header, line].drop_first();
    assert(data =~= seq![line]);
    assert(data.drop_last() =~= Seq::<Seq<char>>::empty());
    assert(data.last() == line);
    assert(data_symbols(data.drop_last()) == Seq::<Seq<char>>::empty());
    assert(spec_csv_symbols(header + seq!['\n'] + line) == data_symbols(data));
}

proof fn lemma_split_newlines_no_feed(s: Seq<char>)
    requires
        !s.contains('\n'),
    ensures
        split_newlines(s) == seq![s],
    decreases s.len(),
{
    if s.len() > 0 {
        assert(!s.drop_last().contains('\n')) by {
            if s.drop_last().contains('\n') {
                let j = choose|j: int| 0 <= j < s.drop_last().len() && s.drop_last()[j] == '\n';
                assert(s[j] == '\n');
            }
        }
        lemma_split_newlines_no_feed(s.drop_last());
        assert(s.last() != '\n') by {
            assert(s[s.len() - 1] == s.last());
        }
        assert(s.drop_last().push(s.last()) =~= s);
        assert(split_newlines(s) =~= seq![s]);
    } else {
        assert(s =~= Seq::<char>::empty());
        assert(split_newlines(s) =~= seq![s]);
    }
}

/// Appending text without a line feed to a text whose pieces end with an
/// empty one fills that last piece.
proof fn lemma_split_newlines_append(h: Seq<char>, line: Seq<char>)
    requires
        split_newlines(h).len() > 0,
        split_newlines(h).last().len() == 0,
        !line.contains('\n'),
    ensures
        split_newlines(h + line) == split_newlines(h).update(split_newlines(h).len() - 1, line),
    decreases line.len(),
{
    let p = split_newlines(h);
    if line.len() == 0 {
        assert(h + line =~= h);
        assert(p.last() =~= line);
        assert(p.update(p.len() - 1, line) =~= p);
    } else {
        let l0 = line.drop_last();
        assert(!l0.contains('\n')) by {
            if l0.contains('\n') {
                let j = choose|j: int| 0 <= j < l0.len() && l0[j] == '\n';
                assert(line[j] == '\n');
            }
        }
        lemma_split_newlines_append(h, l0);
        assert((h + line).drop_last() =~= h + l0);
        assert((h + line).last() == line.last());
        assert(line.last() != '\n') by {
            assert(line[line.len() - 1] == line.last());
        }
        assert(l0.push(line.last()) =~= line);
        assert(p.update(p.len() - 1, l0).update(p.len() - 1, l0.push(line.last())) =~= p.update(p.len() - 1, line));
    }
}

} // verus!
