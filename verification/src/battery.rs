//! The battery: how its sysfs status reads, when a reading is worth a redraw,
//! and the colour its icon takes.

use crate::text::{chars_of, trim, trim_bounds};
use vstd::prelude::*;

verus! {

broadcast use vstd::string::group_string_axioms;

/// Charging state as the widget distinguishes it.
#[derive(Clone, Copy, PartialEq, Eq, Structural, Debug)]
pub enum BatteryState {
    NotCharging,
    Charging,
    Low,
}

/// Capacity (percent) below which a discharging battery counts as low.
pub const LOW_CAPACITY: u32 = 10;

/// The state a battery is in, from its sysfs `status` text (trimmed) and its
/// capacity: charging when `Charging` or `Full`, low when `Discharging` below
/// [`LOW_CAPACITY`] percent, else not charging.
pub open spec fn battery_state(status: Seq<char>, capacity: u32) -> BatteryState {
    let s = trim(status);
    if s == "Charging"@ || s == "Full"@ {
        BatteryState::Charging
    } else if s == "Discharging"@ && capacity < LOW_CAPACITY {
        BatteryState::Low
    } else {
        BatteryState::NotCharging
    }
}

fn chars_equal(cs: &Vec<char>, from: usize, to: usize, lit: &str) -> (r: bool)
    requires
        from <= to <= cs@.len(),
    ensures
        r == (cs@.subrange(from as int, to as int) == lit@),
{
    let lc = chars_of(lit);
    if to - from != lc.len() {
        return false;
    }
    let mut i: usize = 0;
    while i < lc.len()
        invariant
            from <= to <= cs@.len(),
            to - from == lc@.len(),
            lc@ == lit@,
            0 <= i <= lc@.len(),
            forall|k: int| 0 <= k < i ==> cs@[from + k] == lc@[k],
        decreases lc@.len() - i,
    {
        if cs[from + i] != lc[i] {
            assert(cs@.subrange(from as int, to as int)[i as int] != lit@[i as int]);
            return false;
        }
        i = i + 1;
    }
    assert(cs@.subrange(from as int, to as int) =~= lit@);
    true
}

/// Classify a battery from its `status` text and capacity.
pub fn classify_battery(status: &str, capacity: u32) -> (s: BatteryState)
    ensures
        s == battery_state(status@, capacity),
{
    let cs = chars_of(status);
    let (lo, hi) = trim_bounds(&cs, 0, cs.len());
    assert(cs@.subrange(0, cs@.len() as int) =~= cs@);
    if chars_equal(&cs, lo, hi, "Charging") || chars_equal(&cs, lo, hi, "Full") {
        BatteryState::Charging
    } else if chars_equal(&cs, lo, hi, "Discharging") && capacity < LOW_CAPACITY {
        BatteryState::Low
    } else {
        BatteryState::NotCharging
    }
}

/// The last reading the battery widget showed, to tell when a new one
/// changes what it shows.
pub struct BatteryTracker {
    last: Option<(u32, BatteryState)>,
}

impl BatteryTracker {
    pub closed spec fn last_spec(&self) -> Option<(u32, BatteryState)> {
        self.last
    }

    /// Nothing shown yet.
    pub fn new() -> (t: Self)
        ensures
            t.last_spec() is None,
    {
        BatteryTracker { last: None }
    }

    /// Record a reading (`None` when the battery could not be read). Returns
    /// whether it differs from the last one.
    pub fn observe(&mut self, reading: Option<(u32, BatteryState)>) -> (changed: bool)
        ensures
            final(self).last_spec() == reading,
            changed == (old(self).last_spec() != reading),
    {
        let changed = match (self.last, reading) {
            (Some((c, s)), Some((capacity, state))) => c != capacity || s != state,
            (None, None) => false,
            _ => true,
        };
        self.last = reading;
        changed
    }

    /// Whether the low battery indicator should blink.
    pub fn needs_blink(&self) -> (b: bool)
        ensures
            b == (self.last_spec() matches Some((_, s)) && s == BatteryState::Low),
    {
        match self.last {
            Some((_, BatteryState::Low)) => true,
            _ => false,
        }
    }
}

/// The colour of the battery icon.
#[derive(Clone, Copy, PartialEq, Eq, Structural, Debug)]
pub enum IconColor {
    Green,
    Red,
    Yellow,
    White,
}

/// Green while charging; otherwise red below 15%, yellow below 30%, else
/// white.
pub open spec fn icon_color_spec(capacity: u32, charging: bool) -> IconColor {
    if charging {
        IconColor::Green
    } else if capacity < 15 {
        IconColor::Red
    } else if capacity < 30 {
        IconColor::Yellow
    } else {
        IconColor::White
    }
}

/// The battery icon: its fill level, whether it shows charging, and whether
/// it is drawn at all (a low battery blinks).
pub struct BatteryIconWidget {
    pub capacity: u32,
    pub charging: bool,
    pub visible: bool,
}

impl BatteryIconWidget {
    pub fn new(capacity: u32, charging: bool, visible: bool) -> (w: Self)
        ensures
            w.capacity == capacity,
            w.charging == charging,
            w.visible == visible,
    {
        Self { capacity, charging, visible }
    }

    /// The colour the icon is drawn in.
    pub fn icon_color(&self) -> (c: IconColor)
        ensures
            c == icon_color_spec(self.capacity, self.charging),
    {
        if self.charging {
            IconColor::Green
        } else if self.capacity < 15 {
            IconColor::Red
        } else if self.capacity < 30 {
            IconColor::Yellow
        } else {
            IconColor::White
        }
    }
}

/// What the battery widget shows.
#[derive(Clone, Copy, PartialEq, Eq, Debug)]
pub enum BatteryView {
    /// The estimated time left (or to full), green while charging.
    TimeEstimate { charging: bool },
    /// The battery icon with the capacity in percent over it.
    Icon { capacity: u32, charging: bool, visible: bool },
    /// The battery could not be read.
    Unreadable,
}

/// While the time estimate is asked for, the estimate; otherwise the icon,
/// hidden in the off phase of the blink while the battery is low; `--%` when
/// the battery could not be read.
pub open spec fn battery_view_spec(reading: Option<(u32, BatteryState)>, show_time: bool, blink_on: bool) -> BatteryView {
    if show_time {
        BatteryView::TimeEstimate { charging: reading matches Some((_, s)) && s == BatteryState::Charging }
    } else {
        match reading {
            Some((capacity, state)) => BatteryView::Icon {
                capacity,
                charging: state == BatteryState::Charging,
                visible: state != BatteryState::Low || blink_on,
            },
            None => BatteryView::Unreadable,
        }
    }
}

/// What the battery widget shows for a reading.
pub fn battery_view(reading: Option<(u32, BatteryState)>, show_time: bool, blink_on: bool) -> (v: BatteryView)
    ensures
        v == battery_view_spec(reading, show_time, blink_on),
{
    if show_time {
        let charging = match reading {
            Some((_, BatteryState::Charging)) => true,
            _ => false,
        };
        BatteryView::TimeEstimate { charging }
    } else {
        match reading {
            Some((capacity, state)) => BatteryView::Icon {
                capacity,
                charging: state == BatteryState::Charging,
                visible: state != BatteryState::Low || blink_on,
            },
            None => BatteryView::Unreadable,
        }
    }
}

} // verus!
