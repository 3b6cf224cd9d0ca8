//! Memory usage: reading it out of `/proc/meminfo` text, and the sliding
//! window of samples that the memory graph draws.

use crate::clock::{self, millis_of, span_between};
use crate::text::{
    chars_of, ends_with_at, has_prefix, has_suffix, line_bounds, lines, parse_unsigned,
    parse_unsigned_at, starts_with_at, trim, trim_bounds,
};
use std::collections::VecDeque;
use std::time::Instant;
use vstd::prelude::*;

verus! {

pub open spec fn mem_total_key() -> Seq<char> {
    seq!['M', 'e', 'm', 'T', 'o', 't', 'a', 'l', ':']
}

pub open spec fn mem_available_key() -> Seq<char> {
    seq!['M', 'e', 'm', 'A', 'v', 'a', 'i', 'l', 'a', 'b', 'l', 'e', ':']
}

pub open spec fn kb_suffix() -> Seq<char> {
    seq![' ', 'k', 'B']
}

/// The number after a `/proc/meminfo` key: trimmed, a `" kB"` unit dropped,
/// trimmed again, read as a `u64`; 0 when it is not one.
pub open spec fn meminfo_number(v: Seq<char>) -> int {
    let t = trim(v);
    let u = if has_suffix(t, kb_suffix()) {
        t.subrange(0, t.len() - 3)
    } else {
        t
    };
    match parse_unsigned(trim(u), u64::MAX as int) {
        Some(x) => x,
        None => 0,
    }
}

/// `(MemTotal, MemAvailable)` of `/proc/meminfo`, given as lines: the last
/// line with each key decides it; a key that never occurs gives 0.
pub open spec fn meminfo_totals(ls: Seq<Seq<char>>) -> (int, int)
    decreases ls.len(),
{
    if ls.len() == 0 {
        (0, 0)
    } else {
        let (t, a) = meminfo_totals(ls.drop_last());
        let l = ls.last();
        if has_prefix(l, mem_total_key()) {
            (meminfo_number(l.subrange(9, l.len() as int)), a)
        } else if has_prefix(l, mem_available_key()) {
            (t, meminfo_number(l.subrange(13, l.len() as int)))
        } else {
            (t, a)
        }
    }
}

/// Percentage of memory in use, rounded down; 0 when the total is unknown.
pub open spec fn usage_percent(total: int, available: int) -> int {
    if total == 0 {
        0
    } else {
        (total - available) * 100 / total
    }
}

fn meminfo_number_at(cs: &Vec<char>, from: usize, to: usize) -> (r: u64)
    requires
        from <= to <= cs@.len(),
    ensures
        r == meminfo_number(cs@.subrange(from as int, to as int)),
{
    let (lo, hi) = trim_bounds(cs, from, to);
    let mut end = hi;
    if ends_with_at(cs, lo, hi, &[' ', 'k', 'B']) {
        end = hi - 3;
        assert(cs@.subrange(lo as int, hi as int).subrange(0, (hi - lo) - 3) =~= cs@.subrange(
            lo as int,
            end as int,
        ));
    }
    let (lo2, hi2) = trim_bounds(cs, lo, end);
    match parse_unsigned_at(cs, lo2, hi2, 0xFFFF_FFFF_FFFF_FFFF) {
        Some(v) => v,
        None => 0,
    }
}

/// `(MemTotal, MemAvailable)` in kB from the text of `/proc/meminfo`.
pub fn parse_meminfo(meminfo: &str) -> (r: (u64, u64))
    ensures
        (r.0 as int, r.1 as int) == meminfo_totals(lines(meminfo@)),
{
    let cs = chars_of(meminfo);
    let spans = line_bounds(&cs);
    let mut total: u64 = 0;
    let mut available: u64 = 0;
    let mut k: usize = 0;
    while k < spans.len()
        invariant
            cs@ == meminfo@,
            spans@.len() == lines(cs@).len(),
            forall|j: int|
                0 <= j < spans@.len() ==> 0 <= (#[trigger] spans@[j]).0 <= spans@[j].1 <= cs@.len()
                    && cs@.subrange(spans@[j].0 as int, spans@[j].1 as int) == lines(cs@)[j],
            0 <= k <= spans@.len(),
            meminfo_totals(lines(cs@).take(k as int)) == (total as int, available as int),
        decreases spans@.len() - k,
    {
        let (a, b) = spans[k];
        let ghost ls = lines(cs@);
        let ghost l = cs@.subrange(a as int, b as int);
        assert(ls.take(k + 1).drop_last() =~= ls.take(k as int));
        assert(ls.take(k + 1).last() == ls[k as int]);
        if starts_with_at(&cs, a, b, &['M', 'e', 'm', 'T', 'o', 't', 'a', 'l', ':']) {
            assert(l.subrange(9, l.len() as int) =~= cs@.subrange(a + 9, b as int));
            total = meminfo_number_at(&cs, a + 9, b);
        } else if starts_with_at(
            &cs,
            a,
            b,
            &['M', 'e', 'm', 'A', 'v', 'a', 'i', 'l', 'a', 'b', 'l', 'e', ':'],
        ) {
            assert(l.subrange(13, l.len() as int) =~= cs@.subrange(a + 13, b as int));
            available = meminfo_number_at(&cs, a + 13, b);
        }
        k = k + 1;
    }
    assert(lines(cs@).take(k as int) =~= lines(cs@));
    (total, available)
}

/// Percentage of memory in use, given `MemTotal` and `MemAvailable`.
pub fn memory_usage_percent(total: u64, available: u64) -> (p: u32)
    requires
        total == 0 || (available <= total && (total - available) * 100 <= u64::MAX),
    ensures
        p == usage_percent(total as int, available as int),
        p <= 100,
{
    if total == 0 {
        return 0;
    }
    let used = total - available;
    assert((used as int) * 100 / (total as int) <= 100) by (nonlinear_arith)
        requires
            used <= total,
            total > 0,
    ;
    (used * 100 / total) as u32
}

/// The window of samples after one more sample was appended: the oldest
/// sample is dropped when the window would otherwise exceed `max`.
pub open spec fn push_window(s: Seq<u32>, v: u32, max: int) -> Seq<u32> {
    let t = s.push(v);
    if t.len() > max {
        t.drop_first()
    } else {
        t
    }
}

/// A bounded history of memory usage samples, oldest first.
pub struct MemoryHistory {
    samples: VecDeque<u32>,
    max_samples: usize,
    sample_interval_ms: u32,
    last_sample: Instant,
}

impl MemoryHistory {
    pub closed spec fn samples_view(&self) -> Seq<u32> {
        self.samples@
    }

    pub closed spec fn max_samples_spec(&self) -> int {
        self.max_samples as int
    }

    pub closed spec fn sample_interval_spec(&self) -> u32 {
        self.sample_interval_ms
    }

    /// When the last sample was taken.
    pub closed spec fn last_sample_spec(&self) -> Instant {
        self.last_sample
    }

    /// Never empty, and never longer than `max_samples` (one sample when
    /// `max_samples` is 0).
    pub open spec fn wf(&self) -> bool {
        &&& self.samples_view().len() >= 1
        &&& self.samples_view().len() <= self.max_samples_spec() || self.samples_view().len() == 1
    }

    /// A history sampled every `sample_interval_ms` over `graph_window_s`
    /// seconds, holding the one sample `read_usage` takes now.
    pub fn new<F: FnOnce() -> u32>(sample_interval_ms: u32, graph_window_s: u32, read_usage: F) -> (h: Self)
        requires
            sample_interval_ms > 0,
            graph_window_s as int * 1000 <= usize::MAX,
            read_usage.requires(()),
        ensures
            h.wf(),
            h.max_samples_spec() == graph_window_s as int * 1000 / sample_interval_ms as int,
            h.sample_interval_spec() == sample_interval_ms,
            h.samples_view().len() == 1,
            read_usage.ensures((), h.samples_view()[0]),
    {
        let max_samples: usize = (graph_window_s as usize * 1000) / sample_interval_ms as usize;
        let mut samples: VecDeque<u32> = VecDeque::with_capacity(max_samples);
        let last_sample = clock::now();
        let first = read_usage();
        samples.push_back(first);
        Self { samples, max_samples, sample_interval_ms, last_sample }
    }

    /// Take a sample with `read_usage` if at least the sample interval has
    /// passed since the last one, and push it. Returns whether it sampled.
    pub fn maybe_sample<F: FnOnce() -> u32>(&mut self, read_usage: F) -> (sampled: bool)
        requires
            old(self).wf(),
            read_usage.requires(()),
        ensures
            final(self).wf(),
            final(self).max_samples_spec() == old(self).max_samples_spec(),
            final(self).sample_interval_spec() == old(self).sample_interval_spec(),
            exists|n: Instant|
                sampled == (millis_of(#[trigger] span_between(n, old(self).last_sample_spec()))
                    >= old(self).sample_interval_spec() as u128) && (sampled
                    ==> final(self).last_sample_spec() == n),
            !sampled ==> final(self).samples_view() == old(self).samples_view()
                && final(self).last_sample_spec() == old(self).last_sample_spec(),
            sampled ==> read_usage.ensures((), final(self).samples_view().last())
                && final(self).samples_view() == push_window(
                old(self).samples_view(),
                final(self).samples_view().last(),
                old(self).max_samples_spec(),
            ),
    {
        let now = clock::now();
        let since = clock::duration_since(&now, &self.last_sample);
        let since_ms = clock::as_millis(&since);
        let sampled = self.sample_if_due(now, since_ms, read_usage);
        assert(sampled == (millis_of(span_between(now, old(self).last_sample_spec()))
            >= old(self).sample_interval_spec() as u128));
        sampled
    }

    /// The sampling decision, given the clock reading `now` and the
    /// milliseconds `since_last_ms` passed since the last sample: when at
    /// least the sample interval has passed, take a sample with
    /// `read_usage` at `now` and push it. Returns whether it sampled.
    pub fn sample_if_due<F: FnOnce() -> u32>(&mut self, now: Instant, since_last_ms: u128, read_usage: F) -> (sampled: bool)
        requires
            old(self).wf(),
            read_usage.requires(()),
        ensures
            sampled == (since_last_ms >= old(self).sample_interval_spec() as u128),
            sampled ==> final(self).last_sample_spec() == now,
            !sampled ==> final(self).last_sample_spec() == old(self).last_sample_spec(),
            final(self).wf(),
            final(self).max_samples_spec() == old(self).max_samples_spec(),
            final(self).sample_interval_spec() == old(self).sample_interval_spec(),
            !sampled ==> final(self).samples_view() == old(self).samples_view(),
            sampled ==> read_usage.ensures((), final(self).samples_view().last())
                && final(self).samples_view() == push_window(
                old(self).samples_view(),
                final(self).samples_view().last(),
                old(self).max_samples_spec(),
            ),
    {
        if since_last_ms < self.sample_interval_ms as u128 {
            return false;
        }
        self.last_sample = now;
        let usage = read_usage();
        self.samples.push_back(usage);
        if self.samples.len() > self.max_samples {
            self.samples.pop_front();
        }
        true
    }

    /// The samples, oldest first.
    pub fn samples(&self) -> (r: &VecDeque<u32>)
        ensures
            r@ == self.samples_view(),
    {
        &self.samples
    }

    pub fn max_samples(&self) -> (r: usize)
        ensures
            r == self.max_samples_spec(),
    {
        self.max_samples
    }

    pub fn sample_interval_ms(&self) -> (r: u32)
        ensures
            r == self.sample_interval_spec(),
    {
        self.sample_interval_ms
    }
}


/// The memory graph: the samples to draw as columns, right-aligned in room
/// for `max_columns`.
pub struct MemoryGraphWidget {
    pub samples: Vec<u32>,
    pub max_columns: usize,
}

impl MemoryGraphWidget {
    pub fn new(samples: Vec<u32>, max_columns: usize) -> (w: Self)
        ensures
            w.samples@ == samples@,
            w.max_columns == max_columns,
    {
        Self { samples, max_columns }
    }
}

/// The samples of a history, oldest first, as a vector.
pub fn history_samples(h: &MemoryHistory) -> (v: Vec<u32>)
    ensures
        v@ == h.samples_view(),
{
    let s = h.samples();
    let mut v: Vec<u32> = Vec::new();
    let mut i: usize = 0;
    while i < s.len()
        invariant
            s@ == h.samples_view(),
            0 <= i <= s@.len(),
            v@ == s@.take(i as int),
        decreases s@.len() - i,
    {
        v.push(s[i]);
        i = i + 1;
        assert(v@ =~= s@.take(i as int));
    }
    assert(s@.take(s@.len() as int) =~= s@);
    v
}


/// The window never grows past its bound: a well-formed window (non-empty,
/// at most `max` samples, or one sample when `max` is 0) stays well-formed
/// after a push, ends with the new sample, and loses its oldest sample only
/// when it was full.
pub proof fn lemma_push_window_bounded(s: Seq<u32>, v: u32, max: int)
    requires
        s.len() >= 1,
        s.len() <= max || s.len() == 1,
        max >= 0,
    ensures
        push_window(s, v, max).len() >= 1,
        push_window(s, v, max).len() <= max || push_window(s, v, max).len() == 1,
        push_window(s, v, max).last() == v,
        s.len() < max ==> push_window(s, v, max) == s.push(v),
        s.len() >= max ==> push_window(s, v, max) == s.subrange(1, s.len() as int).push(v),
{
    if s.len() >= max {
        assert(s.push(v).drop_first() =~= s.subrange(1, s.len() as int).push(v));
    }
}

} // verus!
