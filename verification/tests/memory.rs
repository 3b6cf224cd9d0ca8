use smol_dfr::memory_graph::{
    history_samples, memory_usage_percent, parse_meminfo, MemoryGraphWidget, MemoryHistory,
};

fn pause_ms(ms: u64) {
    let t = std::time::Instant::now();
    while t.elapsed() < std::time::Duration::from_millis(ms) {}
}

#[test]
fn meminfo_parses_total_and_available() {
    let text = "MemTotal:       16000000 kB\nMemFree:  100 kB\nMemAvailable:    4000000 kB\n";
    assert_eq!(parse_meminfo(text), (16000000, 4000000));
    assert_eq!(memory_usage_percent(16000000, 4000000), 75);
}

#[test]
fn meminfo_missing_or_bad_values_are_zero() {
    assert_eq!(parse_meminfo(""), (0, 0));
    assert_eq!(parse_meminfo("MemTotal: lots kB\n"), (0, 0));
    assert_eq!(parse_meminfo("MemTotal: 100\nMemAvailable:\t50\n"), (100, 50));
    // The last line with a key wins.
    assert_eq!(parse_meminfo("MemTotal: 100 kB\nMemTotal: 200 kB\n"), (200, 0));
    assert_eq!(memory_usage_percent(0, 0), 0);
}

#[test]
fn usage_percent_rounds_down() {
    assert_eq!(memory_usage_percent(3, 1), 66);
    assert_eq!(memory_usage_percent(100, 100), 0);
    assert_eq!(memory_usage_percent(100, 0), 100);
}

#[test]
fn history_starts_with_one_sample() {
    let h = MemoryHistory::new(1000, 60, || 42);
    assert_eq!(h.max_samples(), 60);
    assert_eq!(h.sample_interval_ms(), 1000);
    assert_eq!(history_samples(&h), vec![42]);
}

#[test]
fn history_window_is_bounded() {
    // 1 ms interval over a 0 s window: no room, so one sample is kept.
    let mut h = MemoryHistory::new(1, 0, || 1);
    assert_eq!(h.max_samples(), 0);
    for v in 2..6u32 {
        pause_ms(3);
        assert!(h.maybe_sample(|| v));
        assert_eq!(history_samples(&h), vec![v]);
    }
}

#[test]
fn history_keeps_newest_samples() {
    // 2 ms interval over a 0.004 s window would be 2 samples; use 1 s / 1 ms.
    let mut h = MemoryHistory::new(500, 1, || 10);
    assert_eq!(h.max_samples(), 2);
    assert!(!h.maybe_sample(|| 99));
    assert_eq!(history_samples(&h), vec![10]);
}

#[test]
fn history_drops_oldest_when_full() {
    let mut h = MemoryHistory::new(1, 0, || 0);
    let mut h2 = MemoryHistory::new(1, 1, || 0);
    assert_eq!(h2.max_samples(), 1000);
    pause_ms(3);
    assert!(h2.maybe_sample(|| 5));
    assert_eq!(history_samples(&h2), vec![0, 5]);
    pause_ms(3);
    assert!(h.maybe_sample(|| 8));
    assert_eq!(history_samples(&h), vec![8]);
}

#[test]
fn graph_widget_holds_samples() {
    let w = MemoryGraphWidget::new(vec![1, 2, 3], 10);
    assert_eq!(w.samples, vec![1, 2, 3]);
    assert_eq!(w.max_columns, 10);
}

#[test]
fn sampling_decision_follows_the_interval() {
    // 500 ms interval over a 1 s window: two samples fit.
    let mut h = MemoryHistory::new(500, 1, || 10);
    let now = std::time::Instant::now();
    assert!(!h.sample_if_due(now, 499, || 20));
    assert_eq!(history_samples(&h), vec![10]);
    assert!(h.sample_if_due(now, 500, || 20));
    assert_eq!(history_samples(&h), vec![10, 20]);
    assert!(h.sample_if_due(now, 10_000, || 30));
    assert_eq!(history_samples(&h), vec![20, 30]);
}

#[test]
fn a_sample_restarts_the_interval() {
    let mut h = MemoryHistory::new(1000, 10, || 1);
    let t0 = std::time::Instant::now();
    assert!(h.sample_if_due(t0, 1000, || 2));
    // Measured from the new last sample, a short time is not enough.
    let since = std::time::Instant::now().duration_since(t0).as_millis();
    assert!(!h.sample_if_due(std::time::Instant::now(), since, || 3));
    assert_eq!(history_samples(&h), vec![1, 2]);
}
