use smol_dfr::backlight::backlight_target;
use smol_dfr::main_loop::{draw_crash_bitmap, min_refresh_interval, plan_wait};

#[test]
fn backlight_levels() {
    assert_eq!(backlight_target(true, 0, false, 200, 255, || None), 0);
    assert_eq!(backlight_target(false, 0, false, 200, 255, || None), 200);
    assert_eq!(backlight_target(false, 0, false, 200, 100, || None), 100);
    assert_eq!(backlight_target(false, 29999, true, 200, 255, || Some(77)), 77);
    assert_eq!(backlight_target(false, 10, true, 200, 255, || None), 200);
    assert_eq!(backlight_target(false, 30000, true, 200, 255, || Some(77)), 1);
    assert_eq!(backlight_target(false, 60000, false, 200, 255, || None), 0);
}

#[test]
fn waits() {
    let p = plan_wait(0, None, false, 0, None);
    assert_eq!((p.timeout_ms, p.toggle_blink, p.battery_time_over), (10000, false, false));
    assert_eq!(plan_wait(55, None, false, 0, None).timeout_ms, 5000);
    assert_eq!(plan_wait(0, Some(1000), false, 0, None).timeout_ms, 1000);
    let p = plan_wait(0, None, true, 600, None);
    assert_eq!((p.timeout_ms, p.toggle_blink), (500, true));
    let p = plan_wait(0, None, true, 200, None);
    assert_eq!((p.timeout_ms, p.toggle_blink), (300, false));
    let p = plan_wait(0, None, false, 0, Some((false, 1500)));
    assert_eq!((p.timeout_ms, p.battery_time_over), (1500, false));
    let p = plan_wait(0, None, false, 0, Some((true, 0)));
    assert_eq!((p.timeout_ms, p.battery_time_over), (10000, true));
}

#[test]
fn smallest_refresh() {
    assert_eq!(min_refresh_interval(&vec![]), None);
    assert_eq!(min_refresh_interval(&vec![None, Some(1000), None, Some(500)]), Some(500));
}

#[test]
fn crash_bitmap() {
    let mut out = vec![7u8; 70];
    draw_crash_bitmap(&[0b0000_0101, 0xFF], &mut out);
    assert_eq!(&out[0..4], &[0, 0, 0, 0]);
    assert_eq!(&out[4..8], &[0xFF; 4]);
    assert_eq!(&out[8..12], &[0, 0, 0, 0]);
    assert_eq!(&out[12..32], &[0xFF; 20]);
    assert_eq!(&out[32..64], &[0u8; 32]);
    assert_eq!(&out[64..70], &[7u8; 6]);
}
