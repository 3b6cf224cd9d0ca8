use smol_dfr::volume::{percent_string, volume_label, VolumeShared, VolumeState};

#[test]
fn volume_state_flow() {
    let mut s = VolumeShared::new();
    assert!(!s.is_connected());
    assert!(!s.take_changed());
    s.mark_connected();
    s.set_volume(40, false);
    assert!(s.take_changed());
    assert!(!s.take_changed());
    let v = s.volume();
    assert_eq!((v.volume_percent, v.muted), (40, false));
    s.mark_disconnected();
    let v = s.volume();
    assert_eq!((v.volume_percent, v.muted, s.is_connected()), (0, false, false));
    assert!(s.take_changed());
}

#[test]
fn volume_labels() {
    let v = VolumeState { volume_percent: 73, muted: false };
    assert_eq!(volume_label(false, v), "Vol N/A");
    assert_eq!(volume_label(true, v), "73%");
    assert_eq!(volume_label(true, VolumeState { volume_percent: 73, muted: true }), "muted");
    assert_eq!(percent_string(0), "0%");
    assert_eq!(percent_string(150), "150%");
}
