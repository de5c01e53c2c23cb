use fyrox_graphics_wgpu::metrics::{BindGroupMetrics, FrameMetrics};

#[test]
fn bind_group_metrics_snapshot() {
    let mut metrics = BindGroupMetrics::default();

    metrics.record_hit();
    metrics.record_hit();
    metrics.record_miss();

    let (hits, misses) = metrics.snapshot_and_reset();
    assert_eq!(hits, 2);
    assert_eq!(misses, 1);

    // After reset, counters should be zero
    let (hits, misses) = metrics.snapshot_and_reset();
    assert_eq!(hits, 0);
    assert_eq!(misses, 0);
}

#[test]
fn metrics_start_at_zero() {
    let mut metrics = BindGroupMetrics::default();
    assert_eq!(metrics.snapshot_and_reset(), (0, 0));
}

#[test]
fn misses_and_hits_count_separately() {
    let mut metrics = BindGroupMetrics::default();
    metrics.record_miss();
    metrics.record_miss();
    metrics.record_miss();
    metrics.record_hit();
    assert_eq!(metrics.snapshot_and_reset(), (1, 3));
}

#[test]
fn frame_metrics_default_is_zero() {
    let m = FrameMetrics::default();
    assert_eq!(m.bind_group_cache_hits, 0);
    assert_eq!(m.bind_group_cache_misses, 0);
    assert_eq!(m.draw_call_count, 0);
}
