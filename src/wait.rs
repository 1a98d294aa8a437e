//! The wait engine's decisions. Each poll observes the page (done by the
//! caller, which owns the engine and the clock) and hands the observation
//! here together with the time elapsed since the wait began; the answer is
//! to stop with success, to stop with a timeout failure, or to sleep for a
//! fixed interval and observe again.
use crate::text::{chars_of, decimal, decimal_exec, extend, join, join_exec, string_of, views};
use vstd::prelude::*;

verus! {

/// Interval between two observations of a fast poll, in milliseconds.
pub const POLL_INTERVAL_MS: u64 = 50;

/// Interval between two observations while waiting for a disappearance.
pub const SLOW_POLL_INTERVAL_MS: u64 = 100;

/// Upper bound on a single engine query for `exists` and `count`, in
/// milliseconds, independent of the command's own timeout.
pub const ENGINE_CALL_LIMIT_MS: u64 = 30000;

/// What to do after one observation.
pub enum PollStep {
    /// The awaited state holds: the wait succeeds.
    Satisfied,
    /// The selector at this index is the first seen visible.
    Matched(usize),
    /// The deadline has passed: the wait fails with this message.
    TimedOut(String),
    /// Sleep this many milliseconds, then observe again.
    Retry(u64),
}

/// `"Timeout <t>ms exceeded. [selector: <sel>]"`
pub open spec fn visible_timeout_message(sel: Seq<char>, timeout: u64) -> Seq<char> {
    "Timeout "@ + decimal(timeout as nat) + "ms exceeded. [selector: "@ + sel + "]"@
}

/// `"Timeout <t>ms exceeded. None matched: [<a>, <b>, ...]"`
pub open spec fn none_matched_message(sels: Seq<Seq<char>>, timeout: u64) -> Seq<char> {
    "Timeout "@ + decimal(timeout as nat) + "ms exceeded. None matched: ["@ + join(sels, ", "@)
        + "]"@
}

/// `"Timeout <t>ms exceeded. Still missing: [<a>, <b>, ...]"`
pub open spec fn still_missing_message(missing: Seq<Seq<char>>, timeout: u64) -> Seq<char> {
    "Timeout "@ + decimal(timeout as nat) + "ms exceeded. Still missing: ["@ + join(
        missing,
        ", "@,
    ) + "]"@
}

/// `"Timeout waiting for '<sel>' to disappear"`
pub open spec fn gone_timeout_message(sel: Seq<char>) -> Seq<char> {
    "Timeout waiting for '"@ + sel + "' to disappear"@
}

/// `"Timeout <t>ms: element not found [<sel>]"`
pub open spec fn present_timeout_message(sel: Seq<char>, timeout: u64) -> Seq<char> {
    "Timeout "@ + decimal(timeout as nat) + "ms: element not found ["@ + sel + "]"@
}

/// `"Timeout waiting for Playwright response. [selector: <sel>]"`
pub open spec fn engine_timeout_text(sel: Seq<char>) -> Seq<char> {
    "Timeout waiting for Playwright response. [selector: "@ + sel + "]"@
}

/// The first index at or after `i` whose selector was seen visible.
pub open spec fn first_visible_from(vis: Seq<bool>, i: int) -> Option<int>
    decreases vis.len() - i,
{
    if i < 0 || i >= vis.len() {
        None
    } else if vis[i] {
        Some(i)
    } else {
        first_visible_from(vis, i + 1)
    }
}

/// Every selector was seen visible.
pub open spec fn all_visible(vis: Seq<bool>) -> bool {
    forall|i: int| 0 <= i < vis.len() ==> vis[i]
}

/// The selectors among the first `n` that were not seen visible, in order.
pub open spec fn missing_upto(sels: Seq<Seq<char>>, vis: Seq<bool>, n: int) -> Seq<Seq<char>>
    decreases n,
{
    if n <= 0 {
        Seq::empty()
    } else if vis[n - 1] {
        missing_upto(sels, vis, n - 1)
    } else {
        missing_upto(sels, vis, n - 1).push(sels[n - 1])
    }
}

/// The selectors that were not seen visible, in order.
pub open spec fn missing(sels: Seq<Seq<char>>, vis: Seq<bool>) -> Seq<Seq<char>> {
    missing_upto(sels, vis, sels.len() as int)
}

proof fn lemma_missing_upto(sels: Seq<Seq<char>>, vis: Seq<bool>, n: int)
    requires
        0 <= n <= sels.len() == vis.len(),
    ensures
        forall|i: int| 0 <= i < n && !vis[i] ==> missing_upto(sels, vis, n).contains(sels[i]),
        forall|x: Seq<char>|
            missing_upto(sels, vis, n).contains(x) ==> exists|i: int|
                0 <= i < n && !vis[i] && sels[i] == x,
    decreases n,
{
    if n > 0 {
        lemma_missing_upto(sels, vis, n - 1);
        let prev = missing_upto(sels, vis, n - 1);
        let cur = missing_upto(sels, vis, n);
        assert forall|i: int| 0 <= i < n && !vis[i] implies cur.contains(sels[i]) by {
            if i < n - 1 {
                let k = choose|k: int| 0 <= k < prev.len() && prev[k] == sels[i];
                if !vis[n - 1] {
                    assert(cur[k] == sels[i]);
                }
            } else {
                assert(cur[cur.len() - 1] == sels[i]);
            }
        }
        assert forall|x: Seq<char>| cur.contains(x) implies exists|i: int|
            0 <= i < n && !vis[i] && sels[i] == x by {
            let k = choose|k: int| 0 <= k < cur.len() && cur[k] == x;
            if !vis[n - 1] && k == cur.len() - 1 {
                assert(sels[n - 1] == x);
            } else {
                assert(prev[k] == x);
                assert(prev.contains(x));
            }
        }
    }
}

/// A wait for several selectors that times out names a selector as missing
/// exactly when that selector was not seen visible: one seen visible is
/// never named, and every one not seen is.
pub proof fn lemma_missing_names_exactly_the_unseen(sels: Seq<Seq<char>>, vis: Seq<bool>)
    requires
        sels.len() == vis.len(),
    ensures
        forall|i: int| 0 <= i < sels.len() && !vis[i] ==> missing(sels, vis).contains(sels[i]),
        forall|x: Seq<char>|
            missing(sels, vis).contains(x) ==> exists|i: int|
                0 <= i < sels.len() && !vis[i] && sels[i] == x,
{
    lemma_missing_upto(sels, vis, sels.len() as int);
}

fn timeout_head(timeout: u64) -> (r: Vec<char>)
    ensures
        r@ == "Timeout "@ + decimal(timeout as nat),
{
    let mut out = chars_of("Timeout ");
    extend(&mut out, &decimal_exec(timeout));
    out
}

/// Decides one poll of a wait for a selector to be visible.
pub fn wait_visible_step(selector: &str, visible: bool, elapsed_ms: u64, timeout: u64) -> (r:
    PollStep)
    ensures
        visible ==> r is Satisfied,
        !visible && elapsed_ms > timeout ==> (r matches PollStep::TimedOut(m) && m@
            == visible_timeout_message(selector@, timeout)),
        !visible && elapsed_ms <= timeout ==> (r matches PollStep::Retry(ms) && ms
            == POLL_INTERVAL_MS),
{
    if visible {
        PollStep::Satisfied
    } else if elapsed_ms > timeout {
        let mut out = timeout_head(timeout);
        extend(&mut out, &chars_of("ms exceeded. [selector: "));
        extend(&mut out, &chars_of(selector));
        extend(&mut out, &chars_of("]"));
        PollStep::TimedOut(string_of(&out))
    } else {
        PollStep::Retry(POLL_INTERVAL_MS)
    }
}

/// Decides one poll of a wait for any of several selectors: the first one
/// seen visible, in the order given, wins.
pub fn wait_any_step(selectors: &Vec<String>, visible: &Vec<bool>, elapsed_ms: u64, timeout: u64) -> (r:
    PollStep)
    requires
        selectors@.len() == visible@.len(),
    ensures
        first_visible_from(visible@, 0) matches Some(i) ==> (r matches PollStep::Matched(j) && j
            == i),
        first_visible_from(visible@, 0) is None && elapsed_ms > timeout ==> (r matches PollStep::TimedOut(
            m,
        ) && m@ == none_matched_message(views(selectors@), timeout)),
        first_visible_from(visible@, 0) is None && elapsed_ms <= timeout ==> (r matches PollStep::Retry(
            ms,
        ) && ms == POLL_INTERVAL_MS),
{
    let mut i: usize = 0;
    while i < visible.len()
        invariant
            i <= visible@.len(),
            first_visible_from(visible@, 0) == first_visible_from(visible@, i as int),
        decreases visible@.len() - i,
    {
        if visible[i] {
            return PollStep::Matched(i);
        }
        i = i + 1;
    }
    if elapsed_ms > timeout {
        let mut out = timeout_head(timeout);
        extend(&mut out, &chars_of("ms exceeded. None matched: ["));
        extend(&mut out, &join_exec(selectors, &chars_of(", ")));
        extend(&mut out, &chars_of("]"));
        PollStep::TimedOut(string_of(&out))
    } else {
        PollStep::Retry(POLL_INTERVAL_MS)
    }
}

fn missing_exec(selectors: &Vec<String>, visible: &Vec<bool>) -> (r: Vec<String>)
    requires
        selectors@.len() == visible@.len(),
    ensures
        views(r@) == missing(views(selectors@), visible@),
{
    let mut out: Vec<String> = Vec::new();
    let mut i: usize = 0;
    while i < selectors.len()
        invariant
            i <= selectors@.len() == visible@.len(),
            views(out@) == missing_upto(views(selectors@), visible@, i as int),
        decreases selectors@.len() - i,
    {
        if !visible[i] {
            let ghost before_push = out@;
            out.push(selectors[i].clone());
            assert(views(out@) =~= views(before_push).push(views(selectors@)[i as int]));
        }
        i = i + 1;
    }
    out
}

/// Decides one poll of a wait for several selectors to be visible together.
/// On timeout the failure names exactly the selectors not seen visible.
pub fn wait_all_step(selectors: &Vec<String>, visible: &Vec<bool>, elapsed_ms: u64, timeout: u64) -> (r:
    PollStep)
    requires
        selectors@.len() == visible@.len(),
    ensures
        r is Satisfied <==> all_visible(visible@),
        !all_visible(visible@) && elapsed_ms > timeout ==> (r matches PollStep::TimedOut(m) && m@
            == still_missing_message(missing(views(selectors@), visible@), timeout)),
        !all_visible(visible@) && elapsed_ms <= timeout ==> (r matches PollStep::Retry(ms) && ms
            == POLL_INTERVAL_MS),
{
    let mut every = true;
    let mut i: usize = 0;
    while i < visible.len()
        invariant
            i <= visible@.len(),
            every <==> forall|k: int| 0 <= k < i ==> visible@[k],
        decreases visible@.len() - i,
    {
        if !visible[i] {
            every = false;
        }
        i = i + 1;
    }
    if every {
        PollStep::Satisfied
    } else if elapsed_ms > timeout {
        let mut out = timeout_head(timeout);
        extend(&mut out, &chars_of("ms exceeded. Still missing: ["));
        extend(&mut out, &join_exec(&missing_exec(selectors, visible), &chars_of(", ")));
        extend(&mut out, &chars_of("]"));
        PollStep::TimedOut(string_of(&out))
    } else {
        PollStep::Retry(POLL_INTERVAL_MS)
    }
}

/// Decides one poll of a wait for a selector's matches to drop to zero.
pub fn wait_gone_step(selector: &str, count: usize, elapsed_ms: u64, timeout: u64) -> (r: PollStep)
    ensures
        count == 0 ==> r is Satisfied,
        count > 0 && elapsed_ms > timeout ==> (r matches PollStep::TimedOut(m) && m@
            == gone_timeout_message(selector@)),
        count > 0 && elapsed_ms <= timeout ==> (r matches PollStep::Retry(ms) && ms
            == SLOW_POLL_INTERVAL_MS),
{
    if count == 0 {
        PollStep::Satisfied
    } else if elapsed_ms > timeout {
        let mut out = chars_of("Timeout waiting for '");
        extend(&mut out, &chars_of(selector));
        extend(&mut out, &chars_of("' to disappear"));
        PollStep::TimedOut(string_of(&out))
    } else {
        PollStep::Retry(SLOW_POLL_INTERVAL_MS)
    }
}

/// Decides one poll of a wait for a selector to match at least one element,
/// visible or not.
pub fn wait_present_step(selector: &str, count: usize, elapsed_ms: u64, timeout: u64) -> (r:
    PollStep)
    ensures
        count > 0 ==> r is Satisfied,
        count == 0 && elapsed_ms > timeout ==> (r matches PollStep::TimedOut(m) && m@
            == present_timeout_message(selector@, timeout)),
        count == 0 && elapsed_ms <= timeout ==> (r matches PollStep::Retry(ms) && ms
            == POLL_INTERVAL_MS),
{
    if count > 0 {
        PollStep::Satisfied
    } else if elapsed_ms > timeout {
        let mut out = timeout_head(timeout);
        extend(&mut out, &chars_of("ms: element not found ["));
        extend(&mut out, &chars_of(selector));
        extend(&mut out, &chars_of("]"));
        PollStep::TimedOut(string_of(&out))
    } else {
        PollStep::Retry(POLL_INTERVAL_MS)
    }
}

/// The failure of an `exists` or `count` query that the engine did not
/// answer within `ENGINE_CALL_LIMIT_MS`.
pub fn engine_timeout_message(selector: &str) -> (r: String)
    ensures
        r@ == engine_timeout_text(selector@),
{
    let mut out = chars_of("Timeout waiting for Playwright response. [selector: ");
    extend(&mut out, &chars_of(selector));
    extend(&mut out, &chars_of("]"));
    string_of(&out)
}

} // verus!
