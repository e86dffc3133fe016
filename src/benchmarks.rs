//! Counters kept while benchmarking, and the benchmark settings.
use vstd::prelude::*;

verus! {

/// Settings of the optimizations under benchmark.
#[derive(Debug, Clone, Copy)]
pub struct PerformanceConfig {
    pub enable_streaming: bool,
    pub enable_compression: bool,
    pub enable_parallel_processing: bool,
    pub max_file_size_for_memory_map: u64,
    pub compression_threshold: usize,
    pub parallel_threshold: usize,
}

impl Default for PerformanceConfig {
    fn default() -> (r: Self)
        ensures
            r.enable_streaming && r.enable_compression && r.enable_parallel_processing,
            r.max_file_size_for_memory_map == 500 * 1024 * 1024,
            r.compression_threshold == 4096,
            r.parallel_threshold == 10000,
    {
        PerformanceConfig {
            enable_streaming: true,
            enable_compression: true,
            enable_parallel_processing: true,
            max_file_size_for_memory_map: 500 * 1024 * 1024,
            compression_threshold: 4096,
            parallel_threshold: 10000,
        }
    }
}

/// Operation and error counts, total time (in nanoseconds) and peak memory.
pub struct PerformanceMetrics {
    pub operation_count: u64,
    /// Total time of the recorded operations, in nanoseconds.
    pub total_time: u128,
    pub peak_memory_usage: usize,
    pub error_count: u64,
}

impl PerformanceMetrics {
    pub fn new() -> (r: Self)
        ensures
            r.operation_count == 0,
            r.total_time == 0,
            r.peak_memory_usage == 0,
            r.error_count == 0,
    {
        PerformanceMetrics { operation_count: 0, total_time: 0, peak_memory_usage: 0, error_count: 0 }
    }

    /// Records one operation that took `duration` nanoseconds and used
    /// `memory_usage` bytes.
    pub fn record_operation(&mut self, duration: u128, memory_usage: usize)
        requires
            old(self).operation_count < u64::MAX,
            old(self).total_time + duration <= u128::MAX,
        ensures
            final(self).operation_count == old(self).operation_count + 1,
            final(self).total_time == old(self).total_time + duration,
            final(self).peak_memory_usage == if memory_usage > old(self).peak_memory_usage {
                memory_usage
            } else {
                old(self).peak_memory_usage
            },
            final(self).error_count == old(self).error_count,
    {
        self.operation_count = self.operation_count + 1;
        self.total_time = self.total_time + duration;
        if memory_usage > self.peak_memory_usage {
            self.peak_memory_usage = memory_usage;
        }
    }

    /// Records one failed operation.
    pub fn record_error(&mut self)
        requires
            old(self).error_count < u64::MAX,
        ensures
            final(self).error_count == old(self).error_count + 1,
            final(self).operation_count == old(self).operation_count,
            final(self).total_time == old(self).total_time,
            final(self).peak_memory_usage == old(self).peak_memory_usage,
    {
        self.error_count = self.error_count + 1;
    }

    /// The mean time per operation in nanoseconds, rounded down; 0 when none
    /// was recorded.
    pub fn average_time(&self) -> (r: u128)
        ensures
            self.operation_count == 0 ==> r == 0,
            self.operation_count > 0 ==> r == self.total_time / (self.operation_count as u128),
    {
        if self.operation_count == 0 {
            0
        } else {
            self.total_time / (self.operation_count as u128)
        }
    }
}

} // verus!
