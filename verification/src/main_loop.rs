//! The main loop's timing: how long to wait for input, when the low battery
//! blink flips, and when the battery time estimate is over.

use crate::backlight::TIMEOUT_MS;
use vstd::prelude::*;

verus! {

/// Half period of the low battery blink, in milliseconds.
pub const BLINK_MS: u128 = 500;

/// How long the battery time estimate stays on screen, in milliseconds.
pub const BATTERY_TIME_MS: u64 = 2000;

/// What the loop does before it waits.
#[derive(Debug, Clone, Copy)]
pub struct WaitPlan {
    /// How long to wait for input, in milliseconds.
    pub timeout_ms: i32,
    /// Flip the blink phase (and redraw).
    pub toggle_blink: bool,
    /// The battery time estimate is over (hide it and redraw).
    pub battery_time_over: bool,
}

pub open spec fn min_int(a: int, b: int) -> int {
    if a < b {
        a
    } else {
        b
    }
}

/// The wait: until the next minute, at most [`TIMEOUT_MS`]; no longer than
/// the shortest refresh interval a widget asks for; while blinking, until
/// the next flip (at least 1 ms); while the battery time shows, until it is
/// over.
pub open spec fn planned_wait(
    second: u32,
    min_refresh_ms: Option<u32>,
    needs_blink: bool,
    since_blink_ms: u128,
    battery: Option<(bool, u128)>,
) -> WaitPlan {
    let t0 = min_int((60 - second) * 1000, TIMEOUT_MS as int);
    let t1 = match min_refresh_ms {
        Some(r) => min_int(t0, r as int),
        None => t0,
    };
    let toggle = needs_blink && since_blink_ms >= BLINK_MS;
    let t2 = if needs_blink {
        let since = if toggle {
            0
        } else {
            since_blink_ms as int
        };
        let left = BLINK_MS - since;
        min_int(t1, if left < 1 { 1 } else { left })
    } else {
        t1
    };
    let (t3, over) = match battery {
        Some((due, left)) => if due {
            (t2, true)
        } else {
            (min_int(t2, left as int), false)
        },
        None => (t2, false),
    };
    WaitPlan { timeout_ms: t3 as i32, toggle_blink: toggle, battery_time_over: over }
}

/// Plan the wait. `second` is the wall clock's second; `since_blink_ms` the
/// time since the blink last flipped; `battery` says, while the battery time
/// shows, whether it is due to end and how long it has left.
pub fn plan_wait(
    second: u32,
    min_refresh_ms: Option<u32>,
    needs_blink: bool,
    since_blink_ms: u128,
    battery: Option<(bool, u128)>,
) -> (p: WaitPlan)
    requires
        second < 60,
        battery matches Some((due, left)) ==> !due ==> left <= BATTERY_TIME_MS,
    ensures
        p == planned_wait(second, min_refresh_ms, needs_blink, since_blink_ms, battery),
        0 <= p.timeout_ms <= TIMEOUT_MS,
{
    let mut timeout: i32 = (60 - second as i32) * 1000;
    if TIMEOUT_MS < timeout {
        timeout = TIMEOUT_MS;
    }
    if let Some(r) = min_refresh_ms {
        if (r as u64) < (timeout as u64) {
            timeout = r as i32;
        }
    }
    let mut toggle = false;
    if needs_blink {
        let mut since = since_blink_ms;
        if since >= BLINK_MS {
            toggle = true;
            since = 0;
        }
        let left: i32 = (BLINK_MS - since) as i32;
        let cap: i32 = if left < 1 {
            1
        } else {
            left
        };
        if cap < timeout {
            timeout = cap;
        }
    }
    let mut over = false;
    if let Some((due, left)) = battery {
        if due {
            over = true;
        } else if (left as i32) < timeout {
            timeout = left as i32;
        }
    }
    WaitPlan { timeout_ms: timeout, toggle_blink: toggle, battery_time_over: over }
}


/// The smallest of the refresh intervals that widgets ask for.
pub open spec fn min_interval(vs: Seq<Option<u32>>) -> Option<u32>
    decreases vs.len(),
{
    if vs.len() == 0 {
        None
    } else {
        let m = min_interval(vs.drop_last());
        match (m, vs.last()) {
            (Some(a), Some(b)) => Some(if b < a { b } else { a }),
            (None, x) => x,
            (x, None) => x,
        }
    }
}

/// The smallest of the refresh intervals the active widgets ask for.
pub fn min_refresh_interval(vs: &Vec<Option<u32>>) -> (r: Option<u32>)
    ensures
        r == min_interval(vs@),
{
    let mut m: Option<u32> = None;
    let mut i: usize = 0;
    while i < vs.len()
        invariant
            0 <= i <= vs@.len(),
            m == min_interval(vs@.take(i as int)),
        decreases vs@.len() - i,
    {
        assert(vs@.take(i + 1).drop_last() =~= vs@.take(i as int));
        m = match (m, vs[i]) {
            (Some(a), Some(b)) => Some(if b < a { b } else { a }),
            (None, x) => x,
            (x, None) => x,
        };
        i = i + 1;
    }
    assert(vs@.take(vs@.len() as int) =~= vs@);
    m
}

/// The screen shown after a crash, from a bitmap of one bit per pixel (least
/// significant bit first): a clear bit is a white pixel, a set bit black, four
/// bytes each.
pub open spec fn crash_pixel_byte(bits: Seq<u8>, i: int) -> u8 {
    let bit = (i / 4) % 8;
    let byte = bits[(i / 32)];
    if (byte >> (bit as u8)) & 1 == 0 {
        0xFF
    } else {
        0
    }
}

/// Draw the crash bitmap into the first `bits.len() * 32` bytes of `out`.
pub fn draw_crash_bitmap(bits: &[u8], out: &mut [u8])
    requires
        old(out)@.len() >= bits@.len() * 32,
    ensures
        final(out)@.len() == old(out)@.len(),
        forall|i: int| 0 <= i < bits@.len() * 32 ==> final(out)@[i] == crash_pixel_byte(bits@, i),
        forall|i: int| bits@.len() * 32 <= i < old(out)@.len() ==> final(out)@[i] == old(out)@[i],
{
    let mut w: usize = 0;
    let mut k: usize = 0;
    while k < bits.len()
        invariant
            0 <= k <= bits@.len(),
            w == k * 32,
            out@.len() == old(out)@.len(),
            old(out)@.len() >= bits@.len() * 32,
            forall|i: int| 0 <= i < w ==> out@[i] == crash_pixel_byte(bits@, i),
            forall|i: int| bits@.len() * 32 <= i < old(out)@.len() ==> out@[i] == old(out)@[i],
        decreases bits@.len() - k,
    {
        let byte = bits[k];
        let mut b: u8 = 0;
        while b < 8
            invariant
                0 <= k < bits@.len(),
                byte == bits@[k as int],
                0 <= b <= 8,
                w == k * 32 + b * 4,
                out@.len() == old(out)@.len(),
                old(out)@.len() >= bits@.len() * 32,
                forall|i: int| 0 <= i < w ==> out@[i] == crash_pixel_byte(bits@, i),
                forall|i: int| bits@.len() * 32 <= i < old(out)@.len() ==> out@[i] == old(out)@[i],
            decreases 8 - b,
        {
            let c: u8 = if (byte >> b) & 1 == 0 {
                0xFF
            } else {
                0
            };
            assert((k + 1) * 32 <= bits@.len() * 32) by (nonlinear_arith)
                requires
                    k < bits@.len(),
            ;
            out[w] = c;
            out[w + 1] = c;
            out[w + 2] = c;
            out[w + 3] = c;
            proof {
                assert forall|i: int| w <= i < w + 4 implies out@[i] == crash_pixel_byte(bits@, i) by {
                    assert(i / 4 == k * 8 + b) by (nonlinear_arith)
                        requires
                            w == k * 32 + b * 4,
                            w <= i < w + 4,
                    ;
                    assert((k * 8 + b) % 8 == b as int) by (nonlinear_arith)
                        requires
                            0 <= b < 8,
                            k >= 0,
                    ;
                    assert(i / 32 == k) by (nonlinear_arith)
                        requires
                            w == k * 32 + b * 4,
                            w <= i < w + 4,
                            b < 8,
                    ;
                }
            }
            w = w + 4;
            b = b + 1;
        }
        k = k + 1;
    }
}

/// The least time between two reconnection attempts that no watched socket
/// prompted, in seconds.
pub const RECONNECT_COOLDOWN_SECS: u64 = 2;

/// Whether to try reconnecting the disconnected widgets now: some widget is
/// disconnected, and there was no attempt yet or the last one was at least
/// [`RECONNECT_COOLDOWN_SECS`] seconds ago (`since_last_secs`).
pub fn reconnect_due(any_disconnected: bool, since_last_secs: Option<u64>) -> (due: bool)
    ensures
        due == (any_disconnected && match since_last_secs {
            None => true,
            Some(s) => s >= RECONNECT_COOLDOWN_SECS,
        }),
{
    any_disconnected && match since_last_secs {
        None => true,
        Some(s) => s >= RECONNECT_COOLDOWN_SECS,
    }
}

/// The wait follows the most demanding widget: when some widget asks for a
/// refresh interval, the result is one of the intervals asked for and no
/// larger than any of them; when none asks, there is none.
pub proof fn lemma_min_interval_is_smallest(vs: Seq<Option<u32>>)
    ensures
        min_interval(vs) is None <==> forall|i: int| 0 <= i < vs.len() ==> (#[trigger] vs[i]) is None,
        min_interval(vs) matches Some(m) ==> (exists|i: int| 0 <= i < vs.len() && #[trigger] vs[i] == Some(m))
            && forall|i: int| 0 <= i < vs.len() && (#[trigger] vs[i]) is Some ==> m <= vs[i]->0,
    decreases vs.len(),
{
    if vs.len() > 0 {
        let d = vs.drop_last();
        let n = vs.len() - 1;
        lemma_min_interval_is_smallest(d);
        assert forall|i: int| 0 <= i < n implies vs[i] == #[trigger] d[i] by {}
        if min_interval(vs) is None {
            assert forall|i: int| 0 <= i < vs.len() implies (#[trigger] vs[i]) is None by {
                if i < n {
                    assert(vs[i] == d[i]);
                }
            }
        }
        if forall|i: int| 0 <= i < vs.len() ==> (#[trigger] vs[i]) is None {
            assert(vs[n] is None);
            assert forall|i: int| 0 <= i < d.len() implies (#[trigger] d[i]) is None by {
                assert(vs[i] is None);
            }
        }
        if min_interval(vs) is Some {
            let m = min_interval(vs)->0;
            match min_interval(d) {
                Some(a) => {
                    let j = choose|j: int| 0 <= j < d.len() && #[trigger] d[j] == Some(a);
                    assert(vs[j] == Some(a));
                },
                None => {
                    assert(vs[n] == Some(m));
                },
            }
            assert forall|i: int| 0 <= i < vs.len() && (#[trigger] vs[i]) is Some implies m <= vs[i]->0 by {
                if i < n {
                    assert(d[i] == vs[i]);
                }
            }
        }
    }
}

} // verus!
