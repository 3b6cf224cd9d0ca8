//! A value refreshed at most once per interval, and a failure logger that
//! speaks only on transitions.

use crate::clock::{self, duration_ge, span_between};
use std::time::{Duration, Instant};
use vstd::prelude::*;

verus! {

/// A cached value that is refreshed at most once per `interval`.
pub struct RateLimitedValue<T> {
    value: T,
    last_read: Option<Instant>,
    interval: Duration,
}

impl<T> RateLimitedValue<T> {
    /// The cached value.
    pub closed spec fn value(&self) -> T {
        self.value
    }

    /// When the value was last refreshed, if ever.
    pub closed spec fn last_read_spec(&self) -> Option<Instant> {
        self.last_read
    }

    /// Whether the value has been refreshed at least once.
    pub open spec fn has_been_read(&self) -> bool {
        self.last_read_spec() is Some
    }

    /// The refresh interval.
    pub closed spec fn interval(&self) -> Duration {
        self.interval
    }

    /// A value holding `initial`, never refreshed, so the first
    /// `refresh_if_needed` refreshes.
    pub fn new(initial: T, interval: Duration) -> (r: Self)
        ensures
            r.value() == initial,
            !r.has_been_read(),
            r.interval() == interval,
    {
        Self { value: initial, last_read: None, interval }
    }

    /// Call `read_fn` if the cached value is stale: never read, or read at
    /// least `interval` ago. Returns whether a refresh occurred.
    pub fn refresh_if_needed<F: FnOnce() -> T>(&mut self, read_fn: F) -> (refreshed: bool)
        requires
            read_fn.requires(()),
        ensures
            old(self).last_read_spec() is None ==> refreshed,
            old(self).last_read_spec() matches Some(t) ==> exists|n: Instant|
                refreshed == duration_ge(#[trigger] span_between(n, t), old(self).interval()),
            refreshed ==> read_fn.ensures((), final(self).value()) && final(self).last_read_spec() is Some,
            refresh_step(
                *old(self),
                *final(self),
                if refreshed {
                    Some(final(self).value())
                } else {
                    None
                },
            ),
            !refreshed ==> final(self).value() == old(self).value() && final(self).last_read_spec()
                == old(self).last_read_spec(),
            final(self).interval() == old(self).interval(),
    {
        let elapsed = match &self.last_read {
            None => None,
            Some(t) => {
                let n = clock::now();
                let e = clock::duration_since(&n, t);
                assert(e == span_between(n, *t));
                Some(e)
            },
        };
        self.refresh_after(elapsed, read_fn, clock::now)
    }

    /// The refresh decision, given the time `elapsed` since the last refresh
    /// (`None` when there was none): a value never read, or one read at least
    /// `interval` ago, is refreshed with `read_fn` and stamped with the
    /// instant `now` gives after the read; otherwise nothing changes.
    /// Returns whether it refreshed.
    pub fn refresh_after<F: FnOnce() -> T, N: FnOnce() -> Instant>(
        &mut self,
        elapsed: Option<Duration>,
        read_fn: F,
        now: N,
    ) -> (refreshed: bool)
        requires
            read_fn.requires(()),
            now.requires(()),
        ensures
            refreshed == (old(self).last_read_spec() is None || (elapsed matches Some(e) && duration_ge(
                e,
                old(self).interval(),
            ))),
            refreshed ==> read_fn.ensures((), final(self).value()),
            refreshed ==> (final(self).last_read_spec() matches Some(t) && now.ensures((), t)),
            !refreshed ==> final(self).value() == old(self).value() && final(self).last_read_spec()
                == old(self).last_read_spec(),
            final(self).interval() == old(self).interval(),
    {
        let stale = match &elapsed {
            None => false,
            Some(e) => clock::duration_at_least(e, &self.interval),
        };
        self.refresh_if_stale(stale, read_fn, now)
    }

    /// The refresh decision, given whether at least `interval` has passed
    /// since the last refresh (`stale`): a value never read, or a stale one,
    /// is refreshed with `read_fn` and stamped with the instant `now` gives
    /// after the read; otherwise nothing changes. Returns whether it
    /// refreshed.
    pub fn refresh_if_stale<F: FnOnce() -> T, N: FnOnce() -> Instant>(
        &mut self,
        stale: bool,
        read_fn: F,
        now: N,
    ) -> (refreshed: bool)
        requires
            read_fn.requires(()),
            now.requires(()),
        ensures
            refreshed == (stale || old(self).last_read_spec() is None),
            refreshed ==> read_fn.ensures((), final(self).value()),
            refreshed ==> (final(self).last_read_spec() matches Some(t) && now.ensures((), t)),
            !refreshed ==> final(self).value() == old(self).value() && final(self).last_read_spec()
                == old(self).last_read_spec(),
            final(self).interval() == old(self).interval(),
    {
        if stale || self.last_read.is_none() {
            self.value = read_fn();
            self.last_read = Some(now());
            true
        } else {
            false
        }
    }

    /// The cached value.
    pub fn get(&self) -> (r: &T)
        ensures
            *r == self.value(),
    {
        &self.value
    }
}

/// Tracks a check that can fail and recover, so that a failure is reported
/// once on the transition to failed and a recovery once on the transition back.
pub struct LogOnce {
    failed: bool,
    fail_msg: &'static str,
    recover_msg: &'static str,
}

impl LogOnce {
    pub closed spec fn is_failed(&self) -> bool {
        self.failed
    }

    pub closed spec fn fail_msg(&self) -> &'static str {
        self.fail_msg
    }

    pub closed spec fn recover_msg(&self) -> &'static str {
        self.recover_msg
    }

    /// A tracker in the OK state.
    pub fn new(fail_msg: &'static str, recover_msg: &'static str) -> (r: Self)
        ensures
            !r.is_failed(),
            r.fail_msg() == fail_msg,
            r.recover_msg() == recover_msg,
    {
        Self { failed: false, fail_msg, recover_msg }
    }

    /// Record the outcome of one check. Returns the message to log: the
    /// failure message when an OK tracker sees a failure, the recovery
    /// message when a failed tracker sees success, and nothing otherwise.
    pub fn check(&mut self, ok: bool) -> (msg: Option<&'static str>)
        ensures
            check_step(*old(self), *final(self), ok, msg),
            final(self).is_failed() == !ok,
            final(self).fail_msg() == old(self).fail_msg(),
            final(self).recover_msg() == old(self).recover_msg(),
            msg == (if ok && old(self).is_failed() {
                Some(old(self).recover_msg())
            } else if !ok && !old(self).is_failed() {
                Some(old(self).fail_msg())
            } else {
                None
            }),
    {
        if ok && self.failed {
            self.failed = false;
            Some(self.recover_msg)
        } else if !ok && !self.failed {
            self.failed = true;
            Some(self.fail_msg)
        } else {
            None
        }
    }
}


/// The message a [`LogOnce`] in state `failed` logs for a check with outcome
/// `ok`.
pub open spec fn log_once_message(failed: bool, ok: bool, fail_msg: &'static str, recover_msg: &'static str) -> Option<&'static str> {
    if ok && failed {
        Some(recover_msg)
    } else if !ok && !failed {
        Some(fail_msg)
    } else {
        None
    }
}

/// A failure or recovery is logged once: the state after a check is the
/// failure of that check, and a second check with the same outcome logs
/// nothing.
pub proof fn lemma_log_once_quiet_on_repeat(failed: bool, ok: bool, fail_msg: &'static str, recover_msg: &'static str)
    ensures
        log_once_message(!ok, ok, fail_msg, recover_msg) is None,
        log_once_message(failed, ok, fail_msg, recover_msg) is Some <==> failed == ok,
{
}

/// One call of `refresh_if_needed`: `read` is `Some(v)` when it refreshed
/// and read `v`, which the value then is; `None` when it did not, and the
/// value stays.
pub open spec fn refresh_step<T>(before: RateLimitedValue<T>, after: RateLimitedValue<T>, read: Option<T>) -> bool {
    match read {
        Some(v) => after.value() == v,
        None => after.value() == before.value(),
    }
}

/// The value a run of calls leaves, where `reads[j]` is what call `j` read
/// (`None` when it did not refresh): the last value read, or `init` when no
/// call refreshed.
pub open spec fn value_after_reads<T>(init: T, reads: Seq<Option<T>>) -> T
    decreases reads.len(),
{
    if reads.len() == 0 {
        init
    } else {
        match reads.last() {
            Some(v) => v,
            None => value_after_reads(init, reads.drop_last()),
        }
    }
}

/// After a value made with `init` goes through a run of refreshes, it holds
/// what the last call that refreshed read, or `init` when none did.
/// `states[j]` is the value before call `j`, and `states[j + 1]` after it.
pub proof fn lemma_value_after_refreshes<T>(
    states: Seq<RateLimitedValue<T>>,
    init: T,
    reads: Seq<Option<T>>,
)
    requires
        states.len() == reads.len() + 1,
        states[0].value() == init,
        forall|j: int|
            0 <= j < reads.len() ==> #[trigger] refresh_step(states[j], states[j + 1], reads[j]),
    ensures
        states.last().value() == value_after_reads(init, reads),
    decreases reads.len(),
{
    if reads.len() > 0 {
        let n = reads.len() - 1;
        let s0 = states.drop_last();
        let r0 = reads.drop_last();
        assert forall|j: int| 0 <= j < r0.len() implies #[trigger] refresh_step(s0[j], s0[j + 1], r0[j]) by {
            assert(refresh_step(states[j], states[j + 1], reads[j]));
        }
        lemma_value_after_refreshes(s0, init, r0);
        assert(refresh_step(states[n], states[n + 1], reads[n]));
    }
}

/// One call of `LogOnce::check` with outcome `ok` that logged `msg`.
pub open spec fn check_step(before: LogOnce, after: LogOnce, ok: bool, msg: Option<&'static str>) -> bool {
    &&& after.is_failed() == !ok
    &&& after.fail_msg() == before.fail_msg()
    &&& after.recover_msg() == before.recover_msg()
    &&& msg == log_once_message(before.is_failed(), ok, before.fail_msg(), before.recover_msg())
}

/// Whether the latest of the checks `oks` failed (`false` before any).
pub open spec fn failed_after(oks: Seq<bool>) -> bool {
    oks.len() > 0 && !oks.last()
}

proof fn lemma_log_once_state(states: Seq<LogOnce>, oks: Seq<bool>, msgs: Seq<Option<&'static str>>, k: int)
    requires
        states.len() == oks.len() + 1,
        msgs.len() == oks.len(),
        !states[0].is_failed(),
        forall|j: int| 0 <= j < oks.len() ==> #[trigger] check_step(states[j], states[j + 1], oks[j], msgs[j]),
        0 <= k <= oks.len(),
    ensures
        states[k].is_failed() == failed_after(oks.take(k)),
        states[k].fail_msg() == states[0].fail_msg(),
        states[k].recover_msg() == states[0].recover_msg(),
    decreases k,
{
    if k > 0 {
        lemma_log_once_state(states, oks, msgs, k - 1);
        let j = k - 1;
        assert(check_step(states[j], states[j + 1], oks[j], msgs[j]));
        assert(oks.take(k).last() == oks[j]);
    }
}

/// Over any run of checks on a new tracker, each check logs the recovery
/// message exactly when it succeeds after a failed check, the failure
/// message exactly when it fails after a successful check (or as the
/// first), and nothing otherwise. `states[j]` is the tracker before check
/// `j`, which had outcome `oks[j]` and logged `msgs[j]`.
pub proof fn lemma_log_once_history(states: Seq<LogOnce>, oks: Seq<bool>, msgs: Seq<Option<&'static str>>)
    requires
        states.len() == oks.len() + 1,
        msgs.len() == oks.len(),
        !states[0].is_failed(),
        forall|j: int| 0 <= j < oks.len() ==> #[trigger] check_step(states[j], states[j + 1], oks[j], msgs[j]),
    ensures
        forall|k: int|
            0 <= k < oks.len() ==> #[trigger] msgs[k] == log_once_message(
                failed_after(oks.take(k)),
                oks[k],
                states[0].fail_msg(),
                states[0].recover_msg(),
            ),
        states.last().is_failed() == failed_after(oks),
{
    assert forall|k: int| 0 <= k < oks.len() implies #[trigger] msgs[k] == log_once_message(
        failed_after(oks.take(k)),
        oks[k],
        states[0].fail_msg(),
        states[0].recover_msg(),
    ) by {
        lemma_log_once_state(states, oks, msgs, k);
        assert(check_step(states[k], states[k + 1], oks[k], msgs[k]));
    }
    lemma_log_once_state(states, oks, msgs, oks.len() as int);
    assert(oks.take(oks.len() as int) =~= oks);
}

} // verus!
