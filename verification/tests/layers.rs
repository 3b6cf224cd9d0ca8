use smol_dfr::backlight::{is_display_backlight, is_touchbar_backlight, Activity, ActivityEvent};
use smol_dfr::main_loop::reconnect_due;
use smol_dfr::layers::{any_disconnected, any_of, first_title, shown_layer_changed, LayerSelection};

#[test]
fn backlight_device_names() {
    assert!(is_touchbar_backlight("appletb_backlight"));
    assert!(is_touchbar_backlight("228600000.dsi.0"));
    assert!(is_touchbar_backlight("soc:display-pipe"));
    assert!(!is_touchbar_backlight("intel_backlight"));
    assert!(is_display_backlight("intel_backlight"));
    assert!(is_display_backlight("apple-panel-bl"));
    assert!(is_display_backlight("gmux_backlight"));
    assert!(is_display_backlight("acpi_video0"));
    assert!(!is_display_backlight("appletb_backlight"));
    assert!(!is_display_backlight(""));
}

#[test]
fn fn_key_switches_layers() {
    let mut s = LayerSelection::new();
    assert_eq!(s.active(), 0);
    assert!(s.follow_fn_key(true));
    assert_eq!(s.active(), 1);
    assert!(!s.follow_fn_key(true));
    assert!(s.follow_fn_key(false));
    assert_eq!(s.active(), 0);
    s.follow_fn_key(true);
    s.reset();
    assert_eq!(s.active(), 0);
}

#[test]
fn only_the_shown_layer_counts() {
    let changed = [vec![false, false], vec![false, true]];
    assert!(!shown_layer_changed(0, &changed));
    assert!(shown_layer_changed(1, &changed));
    assert!(!any_of(&vec![]));
    assert!(any_of(&vec![false, true, false]));
}

#[test]
fn disconnected_on_either_layer() {
    assert!(!any_disconnected(&[vec![true], vec![true, true]]));
    assert!(any_disconnected(&[vec![true], vec![true, false]]));
    assert!(any_disconnected(&[vec![false], vec![]]));
    assert!(!any_disconnected(&[vec![], vec![]]));
}

#[test]
fn window_title_from_first_widget_that_has_one() {
    assert_eq!(first_title(vec![None, Some("a".to_string()), Some("b".to_string())]), "a");
    assert_eq!(first_title(vec![None, None]), "");
    assert_eq!(first_title(vec![]), "");
}

#[test]
fn lid_and_input_activity() {
    let t0 = std::time::Instant::now();
    let mut a = Activity::new(t0);
    assert!(!a.lid_closed());
    assert_eq!(*a.last_active(), t0);
    let t1 = t0 + std::time::Duration::from_secs(1);
    a.observe(ActivityEvent::Lid { closed: true }, t1);
    assert!(a.lid_closed());
    assert_eq!(*a.last_active(), t0);
    assert!(!a.take_lid_opened());
    let t2 = t0 + std::time::Duration::from_secs(2);
    a.observe(ActivityEvent::Lid { closed: false }, t2);
    assert!(!a.lid_closed());
    assert_eq!(*a.last_active(), t2);
    assert!(a.take_lid_opened());
    assert!(!a.take_lid_opened());
    let t3 = t0 + std::time::Duration::from_secs(3);
    a.observe(ActivityEvent::Other, t3);
    assert_eq!(*a.last_active(), t2);
    a.observe(ActivityEvent::Input, t3);
    assert_eq!(*a.last_active(), t3);
}

#[test]
fn switch_to_a_layer() {
    let mut s = LayerSelection::new();
    s.switch(1);
    assert_eq!(s.active(), 1);
    s.switch(0);
    assert_eq!(s.active(), 0);
}

#[test]
fn reconnect_cooldown() {
    assert!(!reconnect_due(false, None));
    assert!(reconnect_due(true, None));
    assert!(!reconnect_due(true, Some(1)));
    assert!(reconnect_due(true, Some(2)));
    assert!(!reconnect_due(false, Some(5)));
}
