use mcp_edit_core::config::{
    HardwareCapabilities, MemoryEstimator, PerformanceConfig, PerformanceError, PerformanceMonitor,
};

fn vars(pairs: &[(&str, &str)]) -> Vec<(String, String)> {
    pairs.iter().map(|(k, v)| (k.to_string(), v.to_string())).collect()
}

#[test]
fn test_default_config() {
    let config = PerformanceConfig::default();
    assert!(config.enable_streaming);
    assert!(config.enable_compression);
    assert!(config.enable_parallel_processing);
    assert_eq!(config.max_file_size_for_memory_map, 500 * 1024 * 1024);
}

#[test]
fn test_config_should_methods() {
    let config = PerformanceConfig::default();

    assert!(config.should_use_streaming(200 * 1024 * 1024));
    assert!(!config.should_use_streaming(50 * 1024 * 1024));

    assert!(config.should_compress(5000));
    assert!(!config.should_compress(1000));

    assert!(config.should_use_parallel(20000));
    assert!(!config.should_use_parallel(5000));

    assert!(config.should_use_memory_map(100 * 1024 * 1024));
    assert!(!config.should_use_memory_map(600 * 1024 * 1024));
}

#[test]
fn config_test_memory_estimator() {
    let mut estimator = MemoryEstimator::new();
    estimator.add_file_size(1024 * 1024); // 1MB
    estimator.add_string_size(1000);
    estimator.add_vector_size::<String>(100);

    let config = PerformanceConfig::default();
    assert!(estimator.check_limit(&config));
    assert!(estimator.estimated_usage as f64 / 1024.0 / 1024.0 > 0.0);
}

#[test]
fn test_performance_monitor() {
    let config = PerformanceConfig {
        enable_performance_logging: false,
        ..Default::default()
    };

    let monitor = PerformanceMonitor::new("test_operation", &config);
    assert!(monitor.finish().is_none());
}

#[test]
fn monitor_logs_when_enabled() {
    let config = PerformanceConfig {
        enable_performance_logging: true,
        ..Default::default()
    };
    let monitor = PerformanceMonitor::new("scan", &config);
    let line = monitor.finish_with_details("done").unwrap();
    assert!(line.starts_with("[PERF] scan took "));
    assert!(line.ends_with("ms - done"));
}

#[test]
fn log_line_has_exact_form() {
    let config = PerformanceConfig {
        enable_performance_logging: true,
        ..Default::default()
    };
    assert_eq!(
        config.log_performance("read", 1234, "ok"),
        Some("[PERF] read took 1234ms - ok".to_string())
    );
    assert_eq!(PerformanceConfig::default().log_performance("read", 0, ""), None);
}

#[test]
fn environment_overrides_defaults() {
    let env = vars(&[
        ("MCP_ENABLE_STREAMING", "false"),
        ("MCP_MAX_WORKERS", "4"),
        ("MCP_COMPRESSION_THRESHOLD", "+2048"),
        ("MCP_PARALLEL_THRESHOLD", "10"),
    ]);
    let config = PerformanceConfig::from_vars_with_cpus(&env, 8);
    assert!(!config.enable_streaming);
    assert_eq!(config.max_parallel_workers, 4);
    assert_eq!(config.compression_threshold, 2048);
    assert_eq!(config.parallel_threshold, 1000);
}

#[test]
fn workers_are_capped_at_twice_the_processors() {
    let env = vars(&[("MCP_MAX_WORKERS", "64")]);
    let config = PerformanceConfig::from_vars_with_cpus(&env, 4);
    assert_eq!(config.max_parallel_workers, 8);
}

#[test]
fn sizes_are_capped_and_fitted_to_the_memory_limit() {
    let env = vars(&[
        ("MCP_MAX_MEMORY_MAP_SIZE", "99999999999999"),
        ("MCP_MEMORY_LIMIT", "400000000"),
    ]);
    let config = PerformanceConfig::from_vars_with_cpus(&env, 1);
    assert_eq!(config.memory_limit, 400_000_000);
    assert_eq!(config.max_file_size_for_memory_map, 100_000_000);

    let env = vars(&[("MCP_MAX_MEMORY_MAP_SIZE", "99999999999999")]);
    let config = PerformanceConfig::from_vars_with_cpus(&env, 1);
    assert_eq!(config.max_file_size_for_memory_map, 10 * 1024 * 1024 * 1024);

    let env = vars(&[("MCP_MAX_MEMORY_MAP_SIZE", "18446744073709551616")]);
    let config = PerformanceConfig::from_vars_with_cpus(&env, 1);
    assert_eq!(config.max_file_size_for_memory_map, 500 * 1024 * 1024);
}

#[test]
fn worker_count_uses_processors_when_unset() {
    let config = PerformanceConfig::default();
    assert_eq!(config.worker_count_for(6), 6);
    assert!(config.get_worker_count() >= 1);
    let fixed = PerformanceConfig {
        max_parallel_workers: 3,
        ..Default::default()
    };
    assert_eq!(fixed.worker_count_for(6), 3);
    assert_eq!(fixed.get_worker_count(), 3);
}

#[test]
fn optimal_config_follows_hardware() {
    let big = HardwareCapabilities::from_measurements(16, Some(32 * 1024 * 1024 * 1024), true, false);
    assert_eq!(big.memory_gb, 32);
    let config = big.get_optimal_config();
    assert_eq!(config.max_parallel_workers, 8);
    assert_eq!(config.max_file_size_for_memory_map, 1024 * 1024 * 1024);
    assert!(config.enable_simd);

    let mid = HardwareCapabilities::from_measurements(4, None, false, false);
    assert_eq!(mid.memory_gb, 8);
    let config = mid.get_optimal_config();
    assert_eq!(config.max_parallel_workers, 0);
    assert_eq!(config.max_file_size_for_memory_map, 500 * 1024 * 1024);
    assert!(!config.enable_simd);

    let small = HardwareCapabilities::from_measurements(2, Some(4 * 1024 * 1024 * 1024), false, true);
    let config = small.get_optimal_config();
    assert_eq!(config.max_file_size_for_memory_map, 100 * 1024 * 1024);
    assert!(config.enable_simd);
}

#[test]
fn performance_error_messages() {
    let e = PerformanceError::MemoryLimitExceeded("too much".to_string());
    assert_eq!(e.describe(), "Memory limit exceeded: too much");
    let e = PerformanceError::HardwareNotSupported("avx".to_string());
    assert_eq!(e.describe(), "Hardware not supported: avx");
    let e = PerformanceError::OptimizationNotAvailable("simd".to_string());
    assert_eq!(e.describe(), "Optimization not available: simd");
}
