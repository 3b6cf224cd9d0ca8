//! The volume state shared between the PulseAudio listener and the volume
//! widget, and the label the widget shows.
//!
//! Talking to PulseAudio stays with the caller; what it learns is recorded
//! here.

use crate::text::{decimal, decimal_string, string_push};
use vstd::prelude::*;

verus! {

broadcast use vstd::string::group_string_axioms;

/// The default sink's volume.
#[derive(Clone, Copy, Debug)]
pub struct VolumeState {
    pub volume_percent: u32,
    pub muted: bool,
}

/// What the listener has learnt, and whether the widget has seen it yet.
pub struct VolumeShared {
    volume: VolumeState,
    changed: bool,
    connected: bool,
}

impl VolumeShared {
    pub closed spec fn volume_spec(&self) -> VolumeState {
        self.volume
    }

    pub closed spec fn changed_spec(&self) -> bool {
        self.changed
    }

    pub closed spec fn connected_spec(&self) -> bool {
        self.connected
    }

    /// Disconnected, volume 0 and not muted, nothing new.
    pub fn new() -> (s: Self)
        ensures
            s.volume_spec() == (VolumeState { volume_percent: 0, muted: false }),
            !s.changed_spec(),
            !s.connected_spec(),
    {
        VolumeShared {
            volume: VolumeState { volume_percent: 0, muted: false },
            changed: false,
            connected: false,
        }
    }

    /// Record a new reading of the default sink.
    pub fn set_volume(&mut self, volume_percent: u32, muted: bool)
        ensures
            final(self).volume_spec() == (VolumeState { volume_percent, muted }),
            final(self).changed_spec(),
            final(self).connected_spec() == old(self).connected_spec(),
    {
        self.volume.volume_percent = volume_percent;
        self.volume.muted = muted;
        self.changed = true;
    }

    /// Record a successful connection.
    pub fn mark_connected(&mut self)
        ensures
            final(self).connected_spec(),
            final(self).changed_spec(),
            final(self).volume_spec() == old(self).volume_spec(),
    {
        self.connected = true;
        self.changed = true;
    }

    /// Record the loss of the connection: the volume reads 0, not muted.
    pub fn mark_disconnected(&mut self)
        ensures
            !final(self).connected_spec(),
            final(self).changed_spec(),
            final(self).volume_spec() == (VolumeState { volume_percent: 0, muted: false }),
    {
        self.connected = false;
        self.volume = VolumeState { volume_percent: 0, muted: false };
        self.changed = true;
    }

    /// Check and clear the changed flag.
    pub fn take_changed(&mut self) -> (changed: bool)
        ensures
            changed == old(self).changed_spec(),
            !final(self).changed_spec(),
            final(self).volume_spec() == old(self).volume_spec(),
            final(self).connected_spec() == old(self).connected_spec(),
    {
        let c = self.changed;
        self.changed = false;
        c
    }

    pub fn volume(&self) -> (v: VolumeState)
        ensures
            v == self.volume_spec(),
    {
        self.volume
    }

    pub fn is_connected(&self) -> (c: bool)
        ensures
            c == self.connected_spec(),
    {
        self.connected
    }
}

/// `"{n}%"`.
pub open spec fn percent_label(n: u32) -> Seq<char> {
    decimal(n as nat).push('%')
}

/// `n` followed by a percent sign.
pub fn percent_string(n: u32) -> (s: String)
    ensures
        s@ == percent_label(n),
{
    let mut s = decimal_string(n);
    string_push(&mut s, '%');
    s
}

/// The volume widget's label: `"Vol N/A"` while disconnected, `"muted"`
/// when muted, else the volume in percent.
pub fn volume_label(connected: bool, v: VolumeState) -> (s: String)
    ensures
        s@ == (if !connected {
            "Vol N/A"@
        } else if v.muted {
            "muted"@
        } else {
            percent_label(v.volume_percent)
        }),
{
    if !connected {
        "Vol N/A".to_owned()
    } else if v.muted {
        "muted".to_owned()
    } else {
        percent_string(v.volume_percent)
    }
}

} // verus!
