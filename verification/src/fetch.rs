//! The decisions around fetching quotes: which request to send, when to try
//! again, what a batch of per-symbol results amounts to, and when a cached
//! batch may be served.
use vstd::prelude::*;
use crate::symbols::{is_valid_symbol, spec_is_valid_symbol};
use crate::text::{copy_str, push_char, push_str};

verus! {

/// The query the chart endpoint is asked with for one symbol.
pub open spec fn chart_query() -> Seq<char> {
    "?interval=1d&range=1d"@
}

/// The request URL for `symbol` below `base_url`, or `None` when the symbol is
/// not safe to place in a path.
pub open spec fn spec_chart_url(base_url: Seq<char>, symbol: Seq<char>) -> Option<Seq<char>> {
    if spec_is_valid_symbol(symbol) {
        Some(base_url + seq!['/'] + symbol + chart_query())
    } else {
        None
    }
}

/// The request URL for `symbol` below `base_url`; `None` (no request is made)
/// when the symbol holds a character other than letters, digits, `-`, `.` and
/// `^`, or is empty or longer than 20 characters.
pub fn chart_url(base_url: &str, symbol: &str) -> (r: Option<String>)
    ensures
        match r {
            Some(u) => spec_chart_url(base_url@, symbol@) == Some(u@),
            None => spec_chart_url(base_url@, symbol@) is None,
        },
{
    if !is_valid_symbol(symbol) {
        return None;
    }
    let mut url = copy_str(base_url);
    push_char(&mut url, '/');
    push_str(&mut url, symbol);
    push_str(&mut url, "?interval=1d&range=1d");
    assert(url@ == base_url@ + seq!['/'] + symbol@ + chart_query());
    Some(url)
}

/// How many times a quote request is sent before its error is reported.
pub const MAX_ATTEMPTS: u32 = 3;

/// The pause, in milliseconds, before sending attempt `attempt + 1` after
/// attempt `attempt` (counted from 0) failed: 100 ms, then 200 ms; `None`
/// once the last attempt has failed.
pub open spec fn spec_retry_delay_ms(attempt: u32) -> Option<u64> {
    if attempt == 0 {
        Some(100)
    } else if attempt == 1 {
        Some(200)
    } else {
        None
    }
}

/// The pause before the next attempt after attempt `attempt` failed, or
/// `None` when no attempt is left.
pub fn retry_delay_ms(attempt: u32) -> (r: Option<u64>)
    ensures
        r == spec_retry_delay_ms(attempt),
{
    if attempt < MAX_ATTEMPTS - 1 {
        Some(100 * ((attempt as u64) + 1))
    } else {
        None
    }
}

/// How one attempt at fetching a quote ended.
#[derive(Debug, Clone, Copy, PartialEq, Eq, Structural)]
pub enum AttemptOutcome {
    /// A quote was read from the response.
    Quote,
    /// The server answered with a status other than success.
    BadStatus,
    /// The response body could not be read as a chart response.
    Unreadable,
    /// The chart response reported an error.
    ApiError,
    /// The chart response held no result.
    NoData,
    /// The request could not be sent or was not answered.
    Transport,
}

/// What the fetcher does after an attempt.
#[derive(Debug, Clone, Copy, PartialEq, Eq, Structural)]
pub enum NextStep {
    /// Hand back the quote that was read.
    Deliver,
    /// Wait this many milliseconds, then send the request again.
    RetryAfter(u64),
    /// Report the error of this attempt.
    Fail,
}

/// After attempt `attempt` (counted from 0) ended with `outcome`: a quote is
/// delivered; a body that cannot be read or that holds no result fails at
/// once; a bad status, a reported error or a transport failure is retried
/// after the pause of `spec_retry_delay_ms`, and fails once no attempt is left.
pub open spec fn spec_next_step(attempt: u32, outcome: AttemptOutcome) -> NextStep {
    match outcome {
        AttemptOutcome::Quote => NextStep::Deliver,
        AttemptOutcome::Unreadable | AttemptOutcome::NoData => NextStep::Fail,
        _ => match spec_retry_delay_ms(attempt) {
            Some(ms) => NextStep::RetryAfter(ms),
            None => NextStep::Fail,
        },
    }
}

/// The step after an attempt that ended with `outcome`.
pub fn next_step(attempt: u32, outcome: AttemptOutcome) -> (r: NextStep)
    ensures
        r == spec_next_step(attempt, outcome),
{
    match outcome {
        AttemptOutcome::Quote => NextStep::Deliver,
        AttemptOutcome::Unreadable | AttemptOutcome::NoData => NextStep::Fail,
        _ => match retry_delay_ms(attempt) {
            Some(ms) => NextStep::RetryAfter(ms),
            None => NextStep::Fail,
        },
    }
}

/// A fetch sends at most `MAX_ATTEMPTS` requests: from the last attempt on,
/// no outcome leads to another one.
pub proof fn lemma_attempts_bounded(attempt: u32, outcome: AttemptOutcome)
    requires
        attempt >= MAX_ATTEMPTS - 1,
    ensures
        !(spec_next_step(attempt, outcome) is RetryAfter),
{
}

/// The successful results, in order.
pub open spec fn successes<Q, E>(s: Seq<Result<Q, E>>) -> Seq<Q>
    decreases s.len(),
{
    if s.len() == 0 {
        Seq::empty()
    } else {
        let rest = successes(s.drop_last());
        match s.last() {
            Ok(q) => rest.push(q),
            Err(_) => rest,
        }
    }
}

/// The last error among the results, if any.
pub open spec fn last_error<Q, E>(s: Seq<Result<Q, E>>) -> Option<E>
    decreases s.len(),
{
    if s.len() == 0 {
        None
    } else {
        match s.last() {
            Err(e) => Some(e),
            Ok(_) => last_error(s.drop_last()),
        }
    }
}

/// What a batch of per-symbol results amounts to: the successes, in order,
/// unless there is none and some request failed, in which case the last
/// failure. Partial failure is tolerated.
pub open spec fn spec_combine<Q, E>(s: Seq<Result<Q, E>>) -> Result<Seq<Q>, E> {
    if successes(s).len() == 0 && last_error(s) is Some {
        Err(last_error(s)->0)
    } else {
        Ok(successes(s))
    }
}

/// Combines the per-symbol results of one fetch.
pub fn combine_results<Q, E>(results: Vec<Result<Q, E>>) -> (r: Result<Vec<Q>, E>)
    ensures
        match r {
            Ok(v) => spec_combine(results@) == Ok::<Seq<Q>, E>(v@),
            Err(e) => spec_combine(results@) == Err::<Seq<Q>, E>(e),
        },
{
    let ghost orig = results@;
    let mut rest = results;
    let mut quotes: Vec<Q> = Vec::new();
    let mut last_err: Option<E> = None;
    let mut k: usize = 0;
    assert(orig.skip(0) == orig);
    assert(orig.len() == rest.len());
    while rest.len() > 0
        invariant
            k + rest.len() == orig.len(),
            orig.len() <= usize::MAX,
            rest@ == orig.skip(k as int),
            quotes@ == successes(orig.take(k as int)),
            last_err == last_error(orig.take(k as int)),
        decreases rest.len(),
    {
        let x = rest.remove(0);
        assert(orig.take(k + 1).drop_last() == orig.take(k as int));
        assert(orig.take(k + 1).last() == x);
        assert(rest@ == orig.skip(k + 1));
        match x {
            Ok(q) => quotes.push(q),
            Err(e) => last_err = Some(e),
        }
        k = k + 1;
    }
    assert(orig.take(orig.len() as int) == orig);
    if quotes.len() == 0 {
        match last_err {
            Some(e) => {
                return Err(e);
            },
            None => {},
        }
    }
    Ok(quotes)
}

/// A cached batch is served when it is younger than the time to live and not
/// empty.
pub fn cache_is_fresh(age_nanos: u128, ttl_nanos: u128, cached_len: usize) -> (r: bool)
    ensures
        r == (age_nanos < ttl_nanos && cached_len > 0),
{
    age_nanos < ttl_nanos && cached_len > 0
}

} // verus!
