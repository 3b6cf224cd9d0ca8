use smol_dfr::sensors::{
    find_thermal_zone, is_unavailable, load_avg_reading, priority_of_lowercase, ShownText,
};

fn z(name: &str, ty: &str) -> (String, String) {
    (name.to_string(), ty.to_string())
}

#[test]
fn cpu_zone_preferred() {
    let zones = vec![
        z("thermal_zone0", "acpitz\n"),
        z("cooling_device0", "CPU\n"),
        z("thermal_zone1", "x86_pkg_temp\n"),
        z("thermal_zone2", "  CPU-therm\n"),
        z("thermal_zone3", "soc_dts0\n"),
    ];
    assert_eq!(find_thermal_zone(&zones), Some("thermal_zone2".to_string()));
}

#[test]
fn battery_and_gpu_zones_least_preferred() {
    let zones = vec![z("thermal_zone0", "battery\n"), z("thermal_zone1", "GPU\n"), z("thermal_zone2", "acpitz")];
    assert_eq!(find_thermal_zone(&zones), Some("thermal_zone2".to_string()));
    let zones = vec![z("thermal_zone0", "BATTERY"), z("thermal_zone1", "gpu")];
    assert_eq!(find_thermal_zone(&zones), Some("thermal_zone0".to_string()));
    assert_eq!(find_thermal_zone(&vec![z("other", "cpu")]), None);
    assert_eq!(find_thermal_zone(&vec![]), None);
}

#[test]
fn load_average_first_field() {
    assert_eq!(load_avg_reading(Some("0.52 0.58 0.59 1/1024 4242\n")), "0.52");
    assert_eq!(load_avg_reading(Some("   \n")), "--");
    assert_eq!(load_avg_reading(None), "--");
}

#[test]
fn redraw_only_when_the_text_changes() {
    let mut t = ShownText::new();
    assert_eq!(t.text(), "");
    assert!(t.observe("0.52"));
    assert!(!t.observe("0.52"));
    assert!(t.observe("0.53"));
    assert_eq!(t.text(), "0.53");
    assert!(t.observe("--"));
    assert!(!t.observe("--"));
    let mut e = ShownText::new();
    assert!(!e.observe(""));
}

#[test]
fn placeholder_marks_a_failed_read() {
    assert!(is_unavailable("--"));
    assert!(!is_unavailable("42°C"));
    assert!(!is_unavailable("-"));
    assert!(!is_unavailable("---"));
    assert!(is_unavailable(&load_avg_reading(None)));
}

#[test]
fn zone_priorities() {
    assert_eq!(priority_of_lowercase("x86_pkg_temp cpu"), 2);
    assert_eq!(priority_of_lowercase("soc_thermal"), 2);
    assert_eq!(priority_of_lowercase("battery"), 0);
    assert_eq!(priority_of_lowercase("gpu-thermal"), 0);
    assert_eq!(priority_of_lowercase("acpitz"), 1);
    assert_eq!(priority_of_lowercase("CPU"), 1);
}
