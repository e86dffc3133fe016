use mcp_edit_core::config::{HardwareCapabilities, MemoryEstimator, PerformanceConfig, PerformanceMonitor};

fn vars(pairs: &[(&str, &str)]) -> Vec<(String, String)> {
    pairs.iter().map(|(k, v)| (k.to_string(), v.to_string())).collect()
}

#[test]
fn test_large_file_streaming() {
    let config = PerformanceConfig::default();

    // Test streaming detection (threshold is 100MB)
    assert!(config.should_use_streaming(150 * 1024 * 1024));
    assert!(!config.should_use_streaming(50 * 1024 * 1024));

    // Test memory mapping
    assert!(config.should_use_memory_map(100 * 1024 * 1024));
    assert!(!config.should_use_memory_map(600 * 1024 * 1024));
}

#[test]
fn test_compression_integration() {
    let config = PerformanceConfig::default();

    // Test compression thresholds
    assert!(config.should_compress(5000));
    assert!(!config.should_compress(1000));

    // Test with different content sizes
    let small_content = "x".repeat(1000);
    let large_content = "x".repeat(5000);

    assert!(!config.should_compress(small_content.len()));
    assert!(config.should_compress(large_content.len()));
}

#[test]
fn test_parallel_processing_integration() {
    let config = PerformanceConfig::default();

    // Test parallel processing thresholds
    assert!(config.should_use_parallel(20000));
    assert!(!config.should_use_parallel(5000));

    // Test worker count
    let worker_count = config.get_worker_count();
    assert!(worker_count > 0);
    assert!(worker_count <= num_cpus::get());
}

#[test]
fn test_performance_monitoring() {
    let config = PerformanceConfig {
        enable_performance_logging: false,
        ..Default::default()
    };

    let monitor = PerformanceMonitor::new("test_operation", &config);
    assert!(monitor.finish_with_details("completed successfully").is_none());
}

#[test]
fn performance_integration_test_memory_estimator() {
    let mut estimator = MemoryEstimator::new();
    let config = PerformanceConfig::default();

    // Test memory estimation
    estimator.add_file_size(1024 * 1024); // 1MB
    estimator.add_string_size(1000);
    estimator.add_vector_size::<String>(100);

    assert!(estimator.check_limit(&config));
    assert!(estimator.estimated_usage as f64 / 1024.0 / 1024.0 > 0.0);

    // Test with memory limit
    let limited_config = PerformanceConfig {
        memory_limit: 1024, // 1KB limit
        ..Default::default()
    };

    assert!(!estimator.check_limit(&limited_config));
}

#[test]
fn test_hardware_capabilities() {
    let hw_caps = HardwareCapabilities::from_measurements(num_cpus::get(), None, false, false);

    assert!(hw_caps.cpu_cores > 0);

    let optimal_config = hw_caps.get_optimal_config();

    // Test that optimal config is adjusted based on hardware
    if hw_caps.cpu_cores >= 8 {
        assert!(optimal_config.max_parallel_workers > 1);
    }

    // Memory-based config is still tested even if detection fails
    assert!(optimal_config.max_file_size_for_memory_map > 0);
}

#[test]
fn test_environment_configuration() {
    let env = vars(&[("MCP_ENABLE_STREAMING", "false"), ("MCP_MAX_WORKERS", "4")]);

    let config = PerformanceConfig::from_env(&env);

    assert!(!config.enable_streaming);
    assert_eq!(config.max_parallel_workers, 4);
}

#[test]
fn test_performance_config_validation() {
    let env = vars(&[("MCP_ENABLE_STREAMING", "invalid"), ("MCP_MAX_WORKERS", "not_a_number")]);

    let config = PerformanceConfig::from_env(&env);

    // Should fall back to defaults
    assert!(config.enable_streaming); // Default is true
    assert_eq!(config.max_parallel_workers, 0); // Default is 0
}

#[test]
fn test_edge_cases() {
    let config = PerformanceConfig::default();

    // Test edge cases
    assert!(!config.should_use_streaming(0));
    assert!(!config.should_use_memory_map(0));
    assert!(!config.should_compress(0));
    assert!(!config.should_use_parallel(0));

    // Test with very large files
    assert!(config.should_use_streaming(1 * 1024 * 1024 * 1024)); // 1GB
    assert!(!config.should_use_memory_map(1 * 1024 * 1024 * 1024)); // 1GB (over limit)

    // Test with memory limit
    let mut estimator = MemoryEstimator::new();
    estimator.add_file_size(2 * 1024 * 1024); // 2MB

    let limited_config = PerformanceConfig {
        memory_limit: 1024 * 1024, // 1MB limit
        ..Default::default()
    };

    assert!(!estimator.check_limit(&limited_config));
}

#[test]
fn test_integration_realistic_scenario() {
    let config = PerformanceConfig::default();

    let mut content = String::new();
    for i in 0..1000 {
        content.push_str(&format!("/// Function {}\n", i));
        content.push_str(&format!("pub fn function_{}() -> Result<(), Error> {{\n", i));
        content.push_str("    // Some complex logic here\n");
        content.push_str("    Ok(())\n");
        content.push_str("}\n\n");
    }

    let file_size = content.len() as u64;
    assert!(config.should_use_parallel(content.len()));
    assert!(!config.should_use_streaming(file_size));
    assert!(config.should_use_memory_map(file_size));

    let mut estimator = MemoryEstimator::new();
    estimator.add_string_size(content.len());
    estimator.add_vector_size::<String>(1000);

    assert!(estimator.check_limit(&config));
    assert!(estimator.estimated_usage as f64 / 1024.0 / 1024.0 > 0.0);
}

#[test]
fn test_memory_usage_bounds() {
    let config = PerformanceConfig {
        memory_limit: 10 * 1024 * 1024, // 10MB limit
        ..Default::default()
    };

    let mut estimator = MemoryEstimator::new();
    estimator.add_file_size(5 * 1024 * 1024); // 5MB

    assert!(estimator.check_limit(&config));

    estimator.add_file_size(6 * 1024 * 1024); // Total 11MB
    assert!(!estimator.check_limit(&config));
}

#[test]
fn test_configuration_stability() {
    let config1 = PerformanceConfig::default();
    let config2 = PerformanceConfig::default();

    assert_eq!(config1.enable_streaming, config2.enable_streaming);
    assert_eq!(config1.enable_compression, config2.enable_compression);
    assert_eq!(config1.max_file_size_for_memory_map, config2.max_file_size_for_memory_map);
}

#[test]
fn test_large_directory_handling() {
    let config = PerformanceConfig::default();

    let large_content = "x".repeat(5000);
    assert!(config.should_compress(large_content.len()));

    let small_content = "x".repeat(1000);
    assert!(!config.should_compress(small_content.len()));
}
