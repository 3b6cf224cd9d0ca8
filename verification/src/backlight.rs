//! How bright the touch bar should be: off with the lid closed, full while
//! in use, dimmed after a while without input, off after longer.

use crate::sensors::{contains_chars, contains_seq};
use crate::text::chars_of;
use std::time::Instant;
use vstd::prelude::*;

verus! {

/// The main loop's longest wait, in milliseconds.
pub const TIMEOUT_MS: i32 = 10000;

/// Time without input after which the bar dims (a multiple of `TIMEOUT_MS`).
pub const BRIGHTNESS_DIM_TIMEOUT: i32 = 30000;

/// Time without input after which the bar turns off (a multiple of
/// `TIMEOUT_MS`).
pub const BRIGHTNESS_OFF_TIMEOUT: i32 = 60000;

/// Brightness of the dimmed bar.
pub const DIMMED_BRIGHTNESS: u32 = 1;

/// Whether the brightness follows the display's (adaptive brightness is on,
/// the lid is open and the bar is in use).
pub open spec fn follows_display(lid_closed: bool, since_active_ms: u64, adaptive: bool) -> bool {
    !lid_closed && since_active_ms < BRIGHTNESS_DIM_TIMEOUT && adaptive
}

/// The brightness the bar should have, at most `max_bl`. `display_level` is
/// the level derived from the display's brightness, when it could be read;
/// without it the configured active brightness applies.
pub open spec fn target_brightness(
    lid_closed: bool,
    since_active_ms: u64,
    adaptive: bool,
    display_level: Option<u32>,
    active_brightness: u32,
    max_bl: u32,
) -> u32 {
    let wanted = if lid_closed {
        0
    } else if since_active_ms < BRIGHTNESS_DIM_TIMEOUT {
        if adaptive {
            match display_level {
                Some(l) => l,
                None => active_brightness,
            }
        } else {
            active_brightness
        }
    } else if since_active_ms < BRIGHTNESS_OFF_TIMEOUT {
        DIMMED_BRIGHTNESS
    } else {
        0
    };
    if max_bl < wanted {
        max_bl
    } else {
        wanted
    }
}

/// The brightness the bar should have now. `display_level` is asked only
/// when the brightness follows the display.
pub fn backlight_target<F: FnOnce() -> Option<u32>>(
    lid_closed: bool,
    since_active_ms: u64,
    adaptive: bool,
    active_brightness: u32,
    max_bl: u32,
    display_level: F,
) -> (b: u32)
    requires
        display_level.requires(()),
    ensures
        follows_display(lid_closed, since_active_ms, adaptive) ==> exists|l: Option<u32>|
            display_level.ensures((), l) && b == target_brightness(
                lid_closed,
                since_active_ms,
                adaptive,
                l,
                active_brightness,
                max_bl,
            ),
        !follows_display(lid_closed, since_active_ms, adaptive) ==> b == target_brightness(
            lid_closed,
            since_active_ms,
            adaptive,
            None,
            active_brightness,
            max_bl,
        ),
{
    let ghost mut read: Option<u32> = None;
    let wanted: u32 = if lid_closed {
        0
    } else if since_active_ms < BRIGHTNESS_DIM_TIMEOUT as u64 {
        if adaptive {
            let l = display_level();
            proof {
                read = l;
            }
            match l {
                Some(v) => v,
                None => active_brightness,
            }
        } else {
            active_brightness
        }
    } else if since_active_ms < BRIGHTNESS_OFF_TIMEOUT as u64 {
        DIMMED_BRIGHTNESS
    } else {
        0
    };
    let b = if max_bl < wanted {
        max_bl
    } else {
        wanted
    };
    assert(follows_display(lid_closed, since_active_ms, adaptive) ==> display_level.ensures((), read)
        && b == target_brightness(lid_closed, since_active_ms, adaptive, read, active_brightness, max_bl));
    b
}


/// Whether a backlight device of this name drives the Touch Bar.
pub open spec fn touchbar_backlight_name(name: Seq<char>) -> bool {
    contains_seq(name, "display-pipe"@) || contains_seq(name, "228600000.dsi.0"@) || contains_seq(
        name,
        "appletb_backlight"@,
    )
}

/// Whether a backlight device of this name drives the built-in display.
pub open spec fn display_backlight_name(name: Seq<char>) -> bool {
    contains_seq(name, "apple-panel-bl"@) || contains_seq(name, "gmux_backlight"@) || contains_seq(
        name,
        "intel_backlight"@,
    ) || contains_seq(name, "acpi_video0"@)
}

fn name_contains(cs: &Vec<char>, lit: &str) -> (b: bool)
    ensures
        b == contains_seq(cs@, lit@),
{
    let p = chars_of(lit);
    contains_chars(cs, p.as_slice())
}

/// Whether the backlight device `name` is the Touch Bar's.
pub fn is_touchbar_backlight(name: &str) -> (b: bool)
    ensures
        b == touchbar_backlight_name(name@),
{
    let cs = chars_of(name);
    name_contains(&cs, "display-pipe") || name_contains(&cs, "228600000.dsi.0") || name_contains(
        &cs,
        "appletb_backlight",
    )
}

/// Whether the backlight device `name` is the built-in display's.
pub fn is_display_backlight(name: &str) -> (b: bool)
    ensures
        b == display_backlight_name(name@),
{
    let cs = chars_of(name);
    name_contains(&cs, "apple-panel-bl") || name_contains(&cs, "gmux_backlight") || name_contains(
        &cs,
        "intel_backlight",
    ) || name_contains(&cs, "acpi_video0")
}

/// What an input event means for the brightness.
#[derive(Clone, Copy, Debug)]
pub enum ActivityEvent {
    /// A key, pointer, gesture or touch event: the user is active.
    Input,
    /// The lid switch turned on (`closed`) or off.
    Lid { closed: bool },
    /// Anything else.
    Other,
}

/// When the user was last active, whether the lid is closed, and whether it
/// opened since the main loop last asked.
pub struct Activity {
    last_active: Instant,
    lid_closed: bool,
    lid_just_opened: bool,
}

impl Activity {
    pub closed spec fn last_active_spec(&self) -> Instant {
        self.last_active
    }

    pub closed spec fn lid_closed_spec(&self) -> bool {
        self.lid_closed
    }

    pub closed spec fn lid_just_opened_spec(&self) -> bool {
        self.lid_just_opened
    }

    /// Active at `now`, lid open, no opening pending.
    pub fn new(now: Instant) -> (a: Self)
        ensures
            a.last_active_spec() == now,
            !a.lid_closed_spec(),
            !a.lid_just_opened_spec(),
    {
        Activity { last_active: now, lid_closed: false, lid_just_opened: false }
    }

    /// Record an event seen at `now`: input marks the user active; the lid
    /// switch sets the lid state, and opening it also marks the user active
    /// and leaves an opening pending; other events change nothing.
    pub fn observe(&mut self, ev: ActivityEvent, now: Instant)
        ensures
            lid_step(*old(self), *final(self), ev),
            match ev {
                ActivityEvent::Input => final(self).last_active_spec() == now && final(self).lid_closed_spec()
                    == old(self).lid_closed_spec() && final(self).lid_just_opened_spec()
                    == old(self).lid_just_opened_spec(),
                ActivityEvent::Lid { closed } => final(self).lid_closed_spec() == closed && (closed
                    ==> final(self).last_active_spec() == old(self).last_active_spec()
                    && final(self).lid_just_opened_spec() == old(self).lid_just_opened_spec()) && (!closed
                    ==> final(self).last_active_spec() == now && final(self).lid_just_opened_spec()),
                ActivityEvent::Other => final(self).last_active_spec() == old(self).last_active_spec()
                    && final(self).lid_closed_spec() == old(self).lid_closed_spec()
                    && final(self).lid_just_opened_spec() == old(self).lid_just_opened_spec(),
            },
    {
        match ev {
            ActivityEvent::Input => {
                self.last_active = now;
            },
            ActivityEvent::Lid { closed } => {
                self.lid_closed = closed;
                if !closed {
                    self.last_active = now;
                    self.lid_just_opened = true;
                }
            },
            ActivityEvent::Other => {},
        }
    }

    /// Whether the lid opened since the last call; clears it.
    pub fn take_lid_opened(&mut self) -> (opened: bool)
        ensures
            opened == old(self).lid_just_opened_spec(),
            !final(self).lid_just_opened_spec(),
            final(self).last_active_spec() == old(self).last_active_spec(),
            final(self).lid_closed_spec() == old(self).lid_closed_spec(),
    {
        let opened = self.lid_just_opened;
        self.lid_just_opened = false;
        opened
    }

    pub fn lid_closed(&self) -> (c: bool)
        ensures
            c == self.lid_closed_spec(),
    {
        self.lid_closed
    }

    pub fn last_active(&self) -> (t: &Instant)
        ensures
            *t == self.last_active_spec(),
    {
        &self.last_active
    }
}

/// The bar is never brighter than its device allows, and it is off with the
/// lid closed.
pub proof fn lemma_target_bounded(
    lid_closed: bool,
    since_active_ms: u64,
    adaptive: bool,
    display_level: Option<u32>,
    active_brightness: u32,
    max_bl: u32,
)
    ensures
        target_brightness(lid_closed, since_active_ms, adaptive, display_level, active_brightness, max_bl) <= max_bl,
        lid_closed ==> target_brightness(
            lid_closed,
            since_active_ms,
            adaptive,
            display_level,
            active_brightness,
            max_bl,
        ) == 0,
        since_active_ms >= BRIGHTNESS_OFF_TIMEOUT ==> target_brightness(
            lid_closed,
            since_active_ms,
            adaptive,
            display_level,
            active_brightness,
            max_bl,
        ) == 0,
{
}

/// The dim and off timeouts are whole multiples of the main loop's longest
/// wait, and the bar dims before it turns off.
pub proof fn lemma_timeouts_align()
    ensures
        BRIGHTNESS_DIM_TIMEOUT % TIMEOUT_MS == 0,
        BRIGHTNESS_OFF_TIMEOUT % TIMEOUT_MS == 0,
        BRIGHTNESS_DIM_TIMEOUT < BRIGHTNESS_OFF_TIMEOUT,
{
}

/// Whether `ev` opens the lid.
pub open spec fn opens_lid(ev: ActivityEvent) -> bool {
    ev matches ActivityEvent::Lid { closed } && !closed
}

/// What one observed event does to the pending lid opening: an opening
/// leaves one pending, anything else keeps what was pending.
pub open spec fn lid_step(before: Activity, after: Activity, ev: ActivityEvent) -> bool {
    after.lid_just_opened_spec() == (before.lid_just_opened_spec() || opens_lid(ev))
}

/// After the main loop took the pending opening (or since the start), an
/// opening is pending again exactly when one of the events observed since
/// opened the lid, so `take_lid_opened` then answers whether any did.
/// `states[j]` is the state before event `j`, `states[j + 1]` after it.
pub proof fn lemma_lid_opened_after_events(states: Seq<Activity>, evs: Seq<ActivityEvent>)
    requires
        states.len() == evs.len() + 1,
        !states[0].lid_just_opened_spec(),
        forall|j: int| 0 <= j < evs.len() ==> #[trigger] lid_step(states[j], states[j + 1], evs[j]),
    ensures
        states.last().lid_just_opened_spec() == exists|j: int| 0 <= j < evs.len() && #[trigger] opens_lid(evs[j]),
    decreases evs.len(),
{
    if evs.len() > 0 {
        let n = evs.len() - 1;
        let s0 = states.drop_last();
        let e0 = evs.drop_last();
        assert forall|j: int| 0 <= j < e0.len() implies #[trigger] lid_step(s0[j], s0[j + 1], e0[j]) by {
            assert(lid_step(states[j], states[j + 1], evs[j]));
        }
        lemma_lid_opened_after_events(s0, e0);
        assert(lid_step(states[n], states[n + 1], evs[n]));
        if exists|j: int| 0 <= j < e0.len() && #[trigger] opens_lid(e0[j]) {
            let j = choose|j: int| 0 <= j < e0.len() && #[trigger] opens_lid(e0[j]);
            assert(opens_lid(evs[j]));
        }
        if opens_lid(evs[n]) {
            assert(exists|j: int| 0 <= j < evs.len() && #[trigger] opens_lid(evs[j]));
        }
        if exists|j: int| 0 <= j < evs.len() && #[trigger] opens_lid(evs[j]) {
            let j = choose|j: int| 0 <= j < evs.len() && #[trigger] opens_lid(evs[j]);
            if j < n {
                assert(opens_lid(e0[j]));
            }
        }
    }
}

} // verus!
