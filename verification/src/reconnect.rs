//! Deciding, from inotify events on the socket directories, when niri's or
//! PulseAudio's socket has appeared, and which directory watches to keep.
//!
//! Niri's sockets appear directly in the runtime directory as `niri.*.sock`;
//! PulseAudio's appears as `pulse/native` in it. When the `pulse` directory
//! does not exist yet, the runtime directory itself is watched for its
//! creation (the "parent" watch).
//!
//! The inotify instance stays with the caller: it hands over the events it
//! read, and the functions that add and remove watches.

use crate::session_detect::{is_niri_socket_name, niri_prefix, sock_suffix};
use crate::text::{chars_of, has_prefix, has_suffix, starts_with_at};
use nix::sys::inotify::WatchDescriptor;
use vstd::prelude::*;

verus! {

/// `nix::sys::inotify::WatchDescriptor`, carried as an opaque value.
#[verifier::external_type_specification]
#[verifier::external_body]
pub struct ExWatchDescriptor(WatchDescriptor);

/// Calls `==` on two watch descriptors. nix derives it over the one field
/// that a descriptor holds, so it is true exactly when the two values are
/// the same.
#[verifier::external_body]
fn wd_eq(a: &WatchDescriptor, b: &WatchDescriptor) -> (r: bool)
    ensures
        r == (*a == *b),
{
    *a == *b
}

/// Which service sockets appeared during one `check_events` call.
pub struct ReconnectEvents {
    pub niri: bool,
    pub pulse: bool,
}

/// The directory watches the caller adds.
#[derive(Clone, Copy, PartialEq, Eq, Debug)]
pub enum WatchTarget {
    /// The runtime directory, for files created or moved in (niri sockets).
    NiriDir,
    /// The `pulse` directory, for files created or moved in.
    PulseDir,
    /// The runtime directory, for directories created in it.
    ParentDir,
}

/// One inotify event: its watch, whether it reports the watch gone
/// (`IN_IGNORED`), and the name of the file it is about.
pub struct WatchEvent {
    pub wd: WatchDescriptor,
    pub ignored: bool,
    pub name: Option<String>,
}

/// The watches in place.
pub struct ReconnectWatches {
    pub niri_wd: Option<WatchDescriptor>,
    pub pulse_wd: Option<WatchDescriptor>,
    pub parent_wd: Option<WatchDescriptor>,
}

/// The watches as plain values.
pub struct Watches {
    pub niri: Option<WatchDescriptor>,
    pub pulse: Option<WatchDescriptor>,
    pub parent: Option<WatchDescriptor>,
}

pub open spec fn native_name() -> Seq<char> {
    seq!['n', 'a', 't', 'i', 'v', 'e']
}

pub open spec fn pulse_name() -> Seq<char> {
    seq!['p', 'u', 'l', 's', 'e']
}

/// Whether handling `ev` adds a watch: a pulse watch reported gone while there
/// is no parent watch (re-watch the parent), or the `pulse` directory created
/// under the parent watch (watch it).
pub open spec fn event_adds_watch(w: Watches, ev: WatchEvent) -> Option<WatchTarget> {
    if ev.ignored {
        if w.niri == Some(ev.wd) {
            None
        } else if w.pulse == Some(ev.wd) && w.parent is None {
            Some(WatchTarget::ParentDir)
        } else {
            None
        }
    } else if ev.name is None {
        None
    } else if w.niri == Some(ev.wd) || w.pulse == Some(ev.wd) {
        None
    } else if w.parent == Some(ev.wd) && ev.name->0@ == pulse_name() {
        Some(WatchTarget::PulseDir)
    } else {
        None
    }
}

/// The watches and the sockets reported after handling `ev`, where `added` is
/// what adding the watch of [`event_adds_watch`] gave (when it adds one).
pub open spec fn after_watch_event(w: Watches, ev: WatchEvent, added: Option<WatchDescriptor>) -> (Watches, bool, bool) {
    if ev.ignored {
        if w.niri == Some(ev.wd) {
            (Watches { niri: None, ..w }, false, false)
        } else if w.pulse == Some(ev.wd) {
            (
                Watches {
                    pulse: None,
                    parent: if w.parent is None {
                        added
                    } else {
                        w.parent
                    },
                    ..w
                },
                false,
                false,
            )
        } else if w.parent == Some(ev.wd) {
            (Watches { parent: None, ..w }, false, false)
        } else {
            (w, false, false)
        }
    } else {
        match ev.name {
            None => (w, false, false),
            Some(name) => if w.niri == Some(ev.wd) {
                (w, has_prefix(name@, niri_prefix()) && has_suffix(name@, sock_suffix()), false)
            } else if w.pulse == Some(ev.wd) {
                (w, false, name@ == native_name())
            } else if w.parent == Some(ev.wd) && name@ == pulse_name() {
                (Watches { pulse: added, parent: None, ..w }, false, false)
            } else {
                (w, false, false)
            },
        }
    }
}

/// Whether handling `ev` removes the parent watch (the `pulse` directory was
/// created under it).
pub open spec fn event_removes_parent(w: Watches, ev: WatchEvent) -> bool {
    !ev.ignored && ev.name is Some && w.niri != Some(ev.wd) && w.pulse != Some(ev.wd) && w.parent
        == Some(ev.wd) && ev.name->0@ == pulse_name()
}

/// Whether the watch `a` is in place and is `b`.
pub fn opt_wd_is(a: &Option<WatchDescriptor>, b: &WatchDescriptor) -> (r: bool)
    ensures
        r == (*a == Some(*b)),
{
    match a {
        Some(x) => wd_eq(x, b),
        None => false,
    }
}

fn name_is(name: &str, expected: &[char]) -> (r: bool)
    ensures
        r == (name@ == expected@),
{
    let cs = chars_of(name);
    let n = cs.len();
    let r = n == expected.len() && starts_with_at(&cs, 0, n, expected);
    assert(cs@.subrange(0, n as int) =~= cs@);
    proof {
        if n == expected@.len() && r {
            assert(cs@.subrange(0, expected@.len() as int) =~= cs@);
        }
    }
    r
}

impl ReconnectWatches {
    pub open spec fn watches(&self) -> Watches {
        Watches { niri: self.niri_wd, pulse: self.pulse_wd, parent: self.parent_wd }
    }

    /// The watches a new watcher sets up: the runtime directory and the
    /// `pulse` directory, and the runtime directory for directory creation
    /// only when the `pulse` directory could not be watched.
    pub fn new<A: Fn(WatchTarget) -> Option<WatchDescriptor>>(add_watch: &A) -> (r: Self)
        requires
            forall|t: WatchTarget| add_watch.requires((t,)),
        ensures
            add_watch.ensures((WatchTarget::NiriDir,), r.niri_wd),
            add_watch.ensures((WatchTarget::PulseDir,), r.pulse_wd),
            r.pulse_wd is None ==> add_watch.ensures((WatchTarget::ParentDir,), r.parent_wd),
            r.pulse_wd is Some ==> r.parent_wd is None,
    {
        let niri_wd = add_watch(WatchTarget::NiriDir);
        let pulse_wd = add_watch(WatchTarget::PulseDir);
        let parent_wd = if pulse_wd.is_none() {
            add_watch(WatchTarget::ParentDir)
        } else {
            None
        };
        ReconnectWatches { niri_wd, pulse_wd, parent_wd }
    }

    /// Handle one event: returns `(niri, pulse)`, whether it reports niri's or
    /// PulseAudio's socket.
    pub fn handle_event<A: Fn(WatchTarget) -> Option<WatchDescriptor>, R: Fn(WatchDescriptor)>(
        &mut self,
        ev: &WatchEvent,
        add_watch: &A,
        rm: &R,
    ) -> (r: (bool, bool))
        requires
            forall|t: WatchTarget| add_watch.requires((t,)),
            forall|d: WatchDescriptor| rm.requires((d,)),
        ensures
            exists|added: Option<WatchDescriptor>|
                {
                    &&& (event_adds_watch(old(self).watches(), *ev) matches Some(t) ==> add_watch.ensures(
                        (t,),
                        added,
                    ))
                    &&& after_watch_event(old(self).watches(), *ev, added) == (
                        final(self).watches(),
                        r.0,
                        r.1,
                    )
                },
            event_removes_parent(old(self).watches(), *ev) ==> rm.ensures((old(self).parent_wd->0,), ()),
    {
        let ghost w0 = self.watches();
        if ev.ignored {
            if opt_wd_is(&self.niri_wd, &ev.wd) {
                self.niri_wd = None;
                assert(after_watch_event(w0, *ev, None) == (self.watches(), false, false));
            } else if opt_wd_is(&self.pulse_wd, &ev.wd) {
                self.pulse_wd = None;
                if self.parent_wd.is_none() {
                    let a = add_watch(WatchTarget::ParentDir);
                    self.parent_wd = a;
                    assert(after_watch_event(w0, *ev, a) == (self.watches(), false, false));
                } else {
                    assert(after_watch_event(w0, *ev, None) == (self.watches(), false, false));
                }
            } else if opt_wd_is(&self.parent_wd, &ev.wd) {
                self.parent_wd = None;
                assert(after_watch_event(w0, *ev, None) == (self.watches(), false, false));
            } else {
                assert(after_watch_event(w0, *ev, None) == (self.watches(), false, false));
            }
            return (false, false);
        }
        let name = match &ev.name {
            Some(n) => n,
            None => {
                assert(after_watch_event(w0, *ev, None) == (self.watches(), false, false));
                return (false, false);
            },
        };
        if opt_wd_is(&self.niri_wd, &ev.wd) {
            let niri = is_niri_socket_name(name.as_str());
            assert(after_watch_event(w0, *ev, None) == (self.watches(), niri, false));
            (niri, false)
        } else if opt_wd_is(&self.pulse_wd, &ev.wd) {
            let pulse = name_is(name.as_str(), &['n', 'a', 't', 'i', 'v', 'e']);
            assert(after_watch_event(w0, *ev, None) == (self.watches(), false, pulse));
            (false, pulse)
        } else if opt_wd_is(&self.parent_wd, &ev.wd) && name_is(
            name.as_str(),
            &['p', 'u', 'l', 's', 'e'],
        ) {
            let a = add_watch(WatchTarget::PulseDir);
            self.pulse_wd = a;
            if let Some(w) = self.parent_wd.take() {
                rm(w);
            }
            assert(after_watch_event(w0, *ev, a) == (self.watches(), false, false));
            (false, false)
        } else {
            assert(after_watch_event(w0, *ev, None) == (self.watches(), false, false));
            (false, false)
        }
    }

    /// Handle the events read in one go, in order. Reports a socket when any
    /// of them does.
    pub fn check_events<A: Fn(WatchTarget) -> Option<WatchDescriptor>, R: Fn(WatchDescriptor)>(
        &mut self,
        events: &Vec<WatchEvent>,
        add_watch: &A,
        rm: &R,
    ) -> (r: ReconnectEvents)
        requires
            forall|t: WatchTarget| add_watch.requires((t,)),
            forall|d: WatchDescriptor| rm.requires((d,)),
        ensures
            exists|added: Seq<Option<WatchDescriptor>>|
                {
                    &&& added.len() == events@.len()
                    &&& adds_possible(old(self).watches(), events@, added, add_watch)
                    &&& after_watch_events(old(self).watches(), events@, added) == (
                        final(self).watches(),
                        r.niri,
                        r.pulse,
                    )
                },
    {
        let mut niri = false;
        let mut pulse = false;
        let ghost w0 = self.watches();
        let ghost mut added: Seq<Option<WatchDescriptor>> = Seq::empty();
        let mut i: usize = 0;
        while i < events.len()
            invariant
                forall|t: WatchTarget| add_watch.requires((t,)),
                forall|d: WatchDescriptor| rm.requires((d,)),
                0 <= i <= events@.len(),
                added.len() == i,
                adds_possible(w0, events@.take(i as int), added, add_watch),
                after_watch_events(w0, events@.take(i as int), added) == (self.watches(), niri, pulse),
            decreases events@.len() - i,
        {
            let ghost wi = self.watches();
            let (n, p) = self.handle_event(&events[i], add_watch, rm);
            proof {
                let a = choose|a: Option<WatchDescriptor>|
                    {
                        &&& (event_adds_watch(wi, events@[i as int]) matches Some(t) ==> add_watch.ensures(
                            (t,),
                            a,
                        ))
                        &&& after_watch_event(wi, events@[i as int], a) == (self.watches(), n, p)
                    };
                let next = added.push(a);
                assert(events@.take(i + 1).drop_last() =~= events@.take(i as int));
                assert(next.drop_last() =~= added);
                added = next;
            }
            niri = niri || n;
            pulse = pulse || p;
            i = i + 1;
        }
        assert(events@.take(events@.len() as int) =~= events@);
        ReconnectEvents { niri, pulse }
    }

    /// Re-add the watches that are missing: the runtime directory, the
    /// `pulse` directory, and, while the `pulse` directory still cannot be
    /// watched, the runtime directory for its creation. Once the `pulse`
    /// directory is watched, the parent watch is removed.
    pub fn ensure_watches<A: Fn(WatchTarget) -> Option<WatchDescriptor>, R: Fn(WatchDescriptor)>(
        &mut self,
        add_watch: &A,
        rm: &R,
    )
        requires
            forall|t: WatchTarget| add_watch.requires((t,)),
            forall|d: WatchDescriptor| rm.requires((d,)),
        ensures
            old(self).niri_wd is Some ==> final(self).niri_wd == old(self).niri_wd,
            old(self).niri_wd is None ==> add_watch.ensures((WatchTarget::NiriDir,), final(self).niri_wd),
            old(self).pulse_wd is Some ==> final(self).pulse_wd == old(self).pulse_wd
                && final(self).parent_wd == old(self).parent_wd,
            old(self).pulse_wd is None ==> add_watch.ensures((WatchTarget::PulseDir,), final(self).pulse_wd),
            old(self).pulse_wd is None && final(self).pulse_wd is Some ==> final(self).parent_wd is None,
            old(self).pulse_wd is None && final(self).pulse_wd is Some && old(self).parent_wd is Some
                ==> rm.ensures((old(self).parent_wd->0,), ()),
            old(self).pulse_wd is None && final(self).pulse_wd is None && old(self).parent_wd is Some
                ==> final(self).parent_wd == old(self).parent_wd,
            old(self).pulse_wd is None && final(self).pulse_wd is None && old(self).parent_wd is None
                ==> add_watch.ensures((WatchTarget::ParentDir,), final(self).parent_wd),
    {
        if self.niri_wd.is_none() {
            self.niri_wd = add_watch(WatchTarget::NiriDir);
        }
        if self.pulse_wd.is_none() {
            self.pulse_wd = add_watch(WatchTarget::PulseDir);
            if self.pulse_wd.is_some() {
                if let Some(w) = self.parent_wd.take() {
                    rm(w);
                }
            } else if self.parent_wd.is_none() {
                self.parent_wd = add_watch(WatchTarget::ParentDir);
            }
        }
    }
}

/// The watches and the sockets reported after handling `evs` in order, where
/// `added[i]` is what the watch that event `i` adds gave.
pub open spec fn after_watch_events(w: Watches, evs: Seq<WatchEvent>, added: Seq<Option<WatchDescriptor>>) -> (Watches, bool, bool)
    decreases evs.len(),
{
    if evs.len() == 0 || added.len() != evs.len() {
        (w, false, false)
    } else {
        let (w1, n1, p1) = after_watch_events(w, evs.drop_last(), added.drop_last());
        let (w2, n2, p2) = after_watch_event(w1, evs.last(), added.last());
        (w2, n1 || n2, p1 || p2)
    }
}

/// Every `added[i]` is a result that adding the watch of event `i` can give.
pub open spec fn adds_possible<A: Fn(WatchTarget) -> Option<WatchDescriptor>>(
    w: Watches,
    evs: Seq<WatchEvent>,
    added: Seq<Option<WatchDescriptor>>,
    add_watch: &A,
) -> bool
    decreases evs.len(),
{
    if evs.len() == 0 || added.len() != evs.len() {
        true
    } else {
        &&& adds_possible(w, evs.drop_last(), added.drop_last(), add_watch)
        &&& (event_adds_watch(after_watch_events(w, evs.drop_last(), added.drop_last()).0, evs.last())
            matches Some(t) ==> add_watch.ensures((t,), added.last()))
    }
}

} // verus!
