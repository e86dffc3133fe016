use mcp_edit_core::benchmarks::{PerformanceConfig, PerformanceMetrics};
use std::time::Duration;

#[test]
fn test_performance_config() {
    let config = PerformanceConfig::default();
    assert!(config.enable_streaming);
    assert!(config.enable_compression);
    assert!(config.enable_parallel_processing);
    assert_eq!(config.max_file_size_for_memory_map, 500 * 1024 * 1024);
}

#[test]
fn test_performance_metrics() {
    let mut metrics = PerformanceMetrics::new();

    metrics.record_operation(Duration::from_millis(100).as_nanos(), 1024);
    metrics.record_operation(Duration::from_millis(200).as_nanos(), 2048);
    metrics.record_error();

    assert_eq!(metrics.operation_count, 2);
    assert_eq!(metrics.average_time(), Duration::from_millis(150).as_nanos());
    assert_eq!(metrics.peak_memory_usage, 2048);
    assert_eq!(metrics.error_count, 1);
}

#[test]
fn average_time_of_no_operations_is_zero() {
    let metrics = PerformanceMetrics::new();
    assert_eq!(metrics.average_time(), 0);
}

#[test]
fn average_time_divides_like_duration() {
    let mut metrics = PerformanceMetrics::new();
    let spans = [
        Duration::new(1, 999_999_999),
        Duration::new(0, 1),
        Duration::new(2, 5),
    ];
    let mut total = Duration::ZERO;
    for d in spans.iter() {
        metrics.record_operation(d.as_nanos(), 1);
        total += *d;
    }
    assert_eq!(metrics.average_time(), (total / 3).as_nanos());
}

#[test]
fn peak_memory_keeps_the_largest() {
    let mut metrics = PerformanceMetrics::new();
    metrics.record_operation(10, 4096);
    metrics.record_operation(10, 100);
    assert_eq!(metrics.peak_memory_usage, 4096);
    assert_eq!(metrics.total_time, 20);
}
