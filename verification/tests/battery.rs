use smol_dfr::battery::{
    battery_view, classify_battery, BatteryIconWidget, BatteryState, BatteryTracker, BatteryView, IconColor,
};

#[test]
fn status_classification() {
    assert_eq!(classify_battery("Charging\n", 50), BatteryState::Charging);
    assert_eq!(classify_battery("Full\n", 100), BatteryState::Charging);
    assert_eq!(classify_battery("Discharging\n", 9), BatteryState::Low);
    assert_eq!(classify_battery("Discharging\n", 10), BatteryState::NotCharging);
    assert_eq!(classify_battery("Not charging\n", 5), BatteryState::NotCharging);
    assert_eq!(classify_battery("Unknown", 5), BatteryState::NotCharging);
}

#[test]
fn tracker_reports_changes_only() {
    let mut t = BatteryTracker::new();
    assert!(!t.observe(None));
    assert!(t.observe(Some((50, BatteryState::NotCharging))));
    assert!(!t.observe(Some((50, BatteryState::NotCharging))));
    assert!(t.observe(Some((50, BatteryState::Charging))));
    assert!(t.observe(Some((51, BatteryState::Charging))));
    assert!(!t.needs_blink());
    assert!(t.observe(Some((5, BatteryState::Low))));
    assert!(t.needs_blink());
    assert!(t.observe(None));
    assert!(!t.needs_blink());
}

#[test]
fn icon_colors() {
    assert_eq!(BatteryIconWidget::new(5, true, true).icon_color(), IconColor::Green);
    assert_eq!(BatteryIconWidget::new(14, false, true).icon_color(), IconColor::Red);
    assert_eq!(BatteryIconWidget::new(15, false, true).icon_color(), IconColor::Yellow);
    assert_eq!(BatteryIconWidget::new(29, false, true).icon_color(), IconColor::Yellow);
    assert_eq!(BatteryIconWidget::new(30, false, false).icon_color(), IconColor::White);
}

#[test]
fn what_the_battery_widget_shows() {
    let low = Some((5, BatteryState::Low));
    let charging = Some((80, BatteryState::Charging));
    assert_eq!(battery_view(charging, true, true), BatteryView::TimeEstimate { charging: true });
    assert_eq!(battery_view(low, true, false), BatteryView::TimeEstimate { charging: false });
    assert_eq!(battery_view(None, true, true), BatteryView::TimeEstimate { charging: false });
    assert_eq!(battery_view(None, false, true), BatteryView::Unreadable);
    assert_eq!(battery_view(low, false, true), BatteryView::Icon { capacity: 5, charging: false, visible: true });
    assert_eq!(battery_view(low, false, false), BatteryView::Icon { capacity: 5, charging: false, visible: false });
    assert_eq!(
        battery_view(charging, false, false),
        BatteryView::Icon { capacity: 80, charging: true, visible: true }
    );
}
