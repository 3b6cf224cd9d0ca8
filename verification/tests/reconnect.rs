use nix::sys::inotify::{AddWatchFlags, InitFlags, Inotify, WatchDescriptor};
use smol_dfr::reconnect::{ReconnectWatches, WatchEvent, WatchTarget};
use std::cell::RefCell;

#[test]
fn sockets_reported_under_their_watches() {
    let ino = Inotify::init(InitFlags::IN_NONBLOCK).unwrap();
    let wd_a = ino.add_watch("/tmp", AddWatchFlags::IN_CREATE).unwrap();
    let wd_b = ino.add_watch("/", AddWatchFlags::IN_CREATE).unwrap();
    let asked = RefCell::new(Vec::new());
    let add = |t: WatchTarget| -> Option<WatchDescriptor> {
        asked.borrow_mut().push(t);
        match t {
            WatchTarget::NiriDir => Some(wd_a),
            WatchTarget::PulseDir => Some(wd_b),
            WatchTarget::ParentDir => None,
        }
    };
    let removed = RefCell::new(0);
    let rm = |_w: WatchDescriptor| *removed.borrow_mut() += 1;
    let mut w = ReconnectWatches::new(&add);
    assert_eq!(*asked.borrow(), vec![WatchTarget::NiriDir, WatchTarget::PulseDir]);
    assert!(w.parent_wd.is_none());
    let ev = |wd, name: &str| WatchEvent { wd, ignored: false, name: Some(name.to_string()) };
    let r = w.check_events(&vec![ev(wd_a, "niri.wayland-1.5.sock"), ev(wd_b, "other")], &add, &rm);
    assert!(r.niri && !r.pulse);
    let r = w.check_events(&vec![ev(wd_b, "native"), ev(wd_a, "foo")], &add, &rm);
    assert!(!r.niri && r.pulse);
    // The pulse watch goes away: the parent is watched again.
    let r = w.check_events(&vec![WatchEvent { wd: wd_b, ignored: true, name: None }], &add, &rm);
    assert!(!r.niri && !r.pulse);
    assert!(w.pulse_wd.is_none());
    assert_eq!(asked.borrow().last(), Some(&WatchTarget::ParentDir));
    assert_eq!(*removed.borrow(), 0);
}

#[test]
fn pulse_directory_creation_switches_watches() {
    let ino = Inotify::init(InitFlags::IN_NONBLOCK).unwrap();
    let wd_a = ino.add_watch("/tmp", AddWatchFlags::IN_CREATE).unwrap();
    let wd_b = ino.add_watch("/", AddWatchFlags::IN_CREATE).unwrap();
    let pulse_exists = RefCell::new(false);
    let add = |t: WatchTarget| -> Option<WatchDescriptor> {
        match t {
            WatchTarget::NiriDir => Some(wd_a),
            WatchTarget::PulseDir => if *pulse_exists.borrow() { Some(wd_b) } else { None },
            WatchTarget::ParentDir => Some(wd_a),
        }
    };
    let removed = RefCell::new(Vec::new());
    let rm = |w: WatchDescriptor| removed.borrow_mut().push(w);
    let mut w = ReconnectWatches::new(&add);
    assert!(w.pulse_wd.is_none());
    assert_eq!(w.parent_wd, Some(wd_a));
    *pulse_exists.borrow_mut() = true;
    // The parent watch is the same descriptor as the niri watch, so a
    // "pulse" entry there is taken for a niri event, not a pulse directory.
    let r = w.check_events(&vec![WatchEvent { wd: wd_a, ignored: false, name: Some("pulse".to_string()) }], &add, &rm);
    assert!(!r.niri && !r.pulse);
    assert!(w.pulse_wd.is_none());
    // ensure_watches picks the pulse directory up and drops the parent.
    w.ensure_watches(&add, &rm);
    assert_eq!(w.pulse_wd, Some(wd_b));
    assert!(w.parent_wd.is_none());
    assert_eq!(*removed.borrow(), vec![wd_a]);
}
