//! Performance settings: defaults, values read from environment variables,
//! hardware-based tuning, timing of operations and a memory estimate.
use vstd::prelude::*;
use crate::text::{
    chars_of, decimal, decimal_chars, parse_unsigned, parse_unsigned_chars, same_chars, string_of,
};

verus! {

/// Configuration of the performance optimizations.
#[derive(Debug, Clone, Copy)]
pub struct PerformanceConfig {
    /// Enable streaming for large files
    pub enable_streaming: bool,
    /// Enable compression for large directory listings
    pub enable_compression: bool,
    /// Enable parallel processing for code analysis
    pub enable_parallel_processing: bool,
    /// Maximum file size for memory mapping (in bytes)
    pub max_file_size_for_memory_map: u64,
    /// Minimum size threshold for compression (in bytes)
    pub compression_threshold: usize,
    /// Minimum file size for parallel processing (in bytes)
    pub parallel_threshold: usize,
    /// Number of parallel workers (0 = auto-detect CPU cores)
    pub max_parallel_workers: usize,
    /// Enable SIMD optimizations where available
    pub enable_simd: bool,
    /// Memory usage limit (in bytes, 0 = no limit)
    pub memory_limit: u64,
    /// Enable detailed performance logging
    pub enable_performance_logging: bool,
}

pub const MIB: u64 = 1024 * 1024;

/// Default largest file that is memory-mapped: 500 MiB.
pub const DEFAULT_MEMORY_MAP_SIZE: u64 = 500 * 1024 * 1024;

/// Largest size setting accepted from the environment: 10 GiB.
pub const MAX_SIZE_SETTING: u64 = 10 * 1024 * 1024 * 1024;

/// Files above this size are streamed: 100 MiB.
pub const STREAMING_THRESHOLD: u64 = 100 * 1024 * 1024;

pub open spec fn default_config() -> PerformanceConfig {
    PerformanceConfig {
        enable_streaming: true,
        enable_compression: true,
        enable_parallel_processing: true,
        max_file_size_for_memory_map: DEFAULT_MEMORY_MAP_SIZE,
        compression_threshold: 4096,
        parallel_threshold: 10000,
        max_parallel_workers: 0,
        enable_simd: true,
        memory_limit: 0,
        enable_performance_logging: false,
    }
}

impl Default for PerformanceConfig {
    fn default() -> (r: Self)
        ensures
            r == default_config(),
    {
        PerformanceConfig {
            enable_streaming: true,
            enable_compression: true,
            enable_parallel_processing: true,
            max_file_size_for_memory_map: DEFAULT_MEMORY_MAP_SIZE,
            compression_threshold: 4096,
            parallel_threshold: 10000,
            max_parallel_workers: 0,
            enable_simd: true,
            memory_limit: 0,
            enable_performance_logging: false,
        }
    }
}

/// The value of the first variable named `name`.
pub open spec fn lookup(vars: Seq<(String, String)>, name: Seq<char>) -> Option<Seq<char>>
    decreases vars.len(),
{
    if vars.len() == 0 {
        None
    } else if vars[0].0@ == name {
        Some(vars[0].1@)
    } else {
        lookup(vars.skip(1), name)
    }
}

/// A boolean setting: `true` or `false`, else the default.
pub open spec fn bool_setting(v: Option<Seq<char>>, default: bool) -> bool {
    match v {
        Some(t) => if t == "true"@ {
            true
        } else if t == "false"@ {
            false
        } else {
            default
        },
        None => default,
    }
}

/// A size setting in bytes: a number, capped at 10 GiB, else the default.
pub open spec fn size_setting(v: Option<Seq<char>>, default: u64) -> u64 {
    match v {
        Some(t) => match parse_unsigned(t, u64::MAX as nat) {
            Some(n) => if n <= MAX_SIZE_SETTING {
                n as u64
            } else {
                MAX_SIZE_SETTING
            },
            None => default,
        },
        None => default,
    }
}

/// The most workers allowed for `cpus` processors: twice as many.
pub open spec fn worker_cap(cpus: nat) -> nat {
    if 2 * cpus > usize::MAX {
        usize::MAX as nat
    } else {
        2 * cpus
    }
}

/// A worker count: a number, capped at twice the processors, else the default.
pub open spec fn workers_setting(v: Option<Seq<char>>, default: usize, cpus: nat) -> usize {
    match v {
        Some(t) => match parse_unsigned(t, usize::MAX as nat) {
            Some(w) => if w > worker_cap(cpus) {
                worker_cap(cpus) as usize
            } else {
                w as usize
            },
            None => default,
        },
        None => default,
    }
}

/// `c` with its thresholds raised to their minimums and the memory-map size
/// kept within a quarter of a set memory limit.
pub open spec fn validated(c: PerformanceConfig) -> PerformanceConfig {
    let ct = if c.compression_threshold < 1024 {
        1024
    } else {
        c.compression_threshold
    };
    let pt = if c.parallel_threshold < 1000 {
        1000
    } else {
        c.parallel_threshold
    };
    let mm = if c.max_file_size_for_memory_map < MIB {
        MIB
    } else {
        c.max_file_size_for_memory_map
    };
    let mm = if c.memory_limit > 0 && mm > c.memory_limit / 4 {
        c.memory_limit / 4
    } else {
        mm
    };
    PerformanceConfig {
        compression_threshold: ct,
        parallel_threshold: pt,
        max_file_size_for_memory_map: mm,
        ..c
    }
}

/// The configuration read from the environment `vars`, on a machine with
/// `cpus` processors.
pub open spec fn config_from_vars(vars: Seq<(String, String)>, cpus: nat) -> PerformanceConfig {
    validated(
        PerformanceConfig {
            enable_streaming: bool_setting(lookup(vars, "MCP_ENABLE_STREAMING"@), true),
            enable_compression: bool_setting(lookup(vars, "MCP_ENABLE_COMPRESSION"@), true),
            enable_parallel_processing: bool_setting(lookup(vars, "MCP_ENABLE_PARALLEL"@), true),
            max_file_size_for_memory_map: size_setting(
                lookup(vars, "MCP_MAX_MEMORY_MAP_SIZE"@),
                DEFAULT_MEMORY_MAP_SIZE,
            ),
            compression_threshold: size_setting(
                lookup(vars, "MCP_COMPRESSION_THRESHOLD"@),
                4096,
            ) as usize,
            parallel_threshold: size_setting(
                lookup(vars, "MCP_PARALLEL_THRESHOLD"@),
                10000,
            ) as usize,
            max_parallel_workers: workers_setting(lookup(vars, "MCP_MAX_WORKERS"@), 0, cpus),
            enable_simd: bool_setting(lookup(vars, "MCP_ENABLE_SIMD"@), true),
            memory_limit: size_setting(lookup(vars, "MCP_MEMORY_LIMIT"@), 0),
            enable_performance_logging: bool_setting(
                lookup(vars, "MCP_PERFORMANCE_LOGGING"@),
                false,
            ),
        },
    )
}

/// Relies on `num_cpus::get`: the number of usable processors, at least 1.
#[verifier::external_body]
fn cpu_count() -> (r: usize)
    ensures
        r >= 1,
{
    num_cpus::get()
}

/// The value of the first variable named `name`.
fn lookup_var(vars: &Vec<(String, String)>, name: &str) -> (r: Option<Vec<char>>)
    ensures
        match lookup(vars@, name@) {
            Some(v) => r matches Some(t) && t@ == v,
            None => r is None,
        },
{
    let key = chars_of(name);
    let mut i: usize = 0;
    assert(vars@.skip(0) =~= vars@);
    while i < vars.len()
        invariant
            i <= vars.len(),
            key@ == name@,
            lookup(vars@.skip(i as int), name@) == lookup(vars@, name@),
        decreases vars.len() - i,
    {
        assert(vars@.skip(i as int).skip(1) =~= vars@.skip(i + 1));
        assert(vars@.skip(i as int)[0] == vars@[i as int]);
        let candidate = chars_of(vars[i].0.as_str());
        if same_chars(candidate.as_slice(), key.as_slice()) {
            return Some(chars_of(vars[i].1.as_str()));
        }
        i = i + 1;
    }
    None
}

fn parse_bool_var(vars: &Vec<(String, String)>, name: &str, default: bool) -> (r: bool)
    ensures
        r == bool_setting(lookup(vars@, name@), default),
{
    match lookup_var(vars, name) {
        Some(t) => {
            if same_chars(t.as_slice(), chars_of("true").as_slice()) {
                true
            } else if same_chars(t.as_slice(), chars_of("false").as_slice()) {
                false
            } else {
                default
            }
        },
        None => default,
    }
}

fn parse_size_var(vars: &Vec<(String, String)>, name: &str, default: u64) -> (r: u64)
    ensures
        r == size_setting(lookup(vars@, name@), default),
{
    match lookup_var(vars, name) {
        Some(t) => match parse_unsigned_chars(t.as_slice(), u64::MAX as u128) {
            Some(n) => if n <= MAX_SIZE_SETTING as u128 {
                n as u64
            } else {
                MAX_SIZE_SETTING
            },
            None => default,
        },
        None => default,
    }
}

fn parse_workers_var(vars: &Vec<(String, String)>, name: &str, default: usize, cpus: usize) -> (r:
    usize)
    ensures
        r == workers_setting(lookup(vars@, name@), default, cpus as nat),
{
    match lookup_var(vars, name) {
        Some(t) => match parse_unsigned_chars(t.as_slice(), usize::MAX as u128) {
            Some(w) => {
                let cap: usize = if cpus > usize::MAX / 2 {
                    usize::MAX
                } else {
                    2 * cpus
                };
                if w > cap as u128 {
                    cap
                } else {
                    w as usize
                }
            },
            None => default,
        },
        None => default,
    }
}

impl PerformanceConfig {
    /// Raises the thresholds to their minimums and keeps the memory-map size
    /// within a quarter of a set memory limit.
    fn validate(&mut self)
        ensures
            *final(self) == validated(*old(self)),
    {
        if self.compression_threshold < 1024 {
            self.compression_threshold = 1024;
        }
        if self.parallel_threshold < 1000 {
            self.parallel_threshold = 1000;
        }
        if self.max_file_size_for_memory_map < MIB {
            self.max_file_size_for_memory_map = MIB;
        }
        if self.memory_limit > 0 && self.max_file_size_for_memory_map > self.memory_limit / 4 {
            self.max_file_size_for_memory_map = self.memory_limit / 4;
        }
    }

    /// The configuration given by the environment variables `vars` (name,
    /// value) on a machine with `cpus` processors: each unset or unreadable
    /// variable leaves its default, sizes are capped at 10 GiB, the worker
    /// count at twice the processors, and the result is validated.
    pub fn from_vars_with_cpus(vars: &Vec<(String, String)>, cpus: usize) -> (r: Self)
        ensures
            r == config_from_vars(vars@, cpus as nat),
    {
        let mut config = PerformanceConfig::default();
        config.enable_streaming = parse_bool_var(vars, "MCP_ENABLE_STREAMING", true);
        config.enable_compression = parse_bool_var(vars, "MCP_ENABLE_COMPRESSION", true);
        config.enable_parallel_processing = parse_bool_var(vars, "MCP_ENABLE_PARALLEL", true);
        config.enable_simd = parse_bool_var(vars, "MCP_ENABLE_SIMD", true);
        config.enable_performance_logging = parse_bool_var(vars, "MCP_PERFORMANCE_LOGGING", false);
        config.max_file_size_for_memory_map = parse_size_var(
            vars,
            "MCP_MAX_MEMORY_MAP_SIZE",
            DEFAULT_MEMORY_MAP_SIZE,
        );
        config.compression_threshold = #[verifier::truncate] (parse_size_var(
            vars,
            "MCP_COMPRESSION_THRESHOLD",
            4096,
        ) as usize);
        config.parallel_threshold = #[verifier::truncate] (parse_size_var(
            vars,
            "MCP_PARALLEL_THRESHOLD",
            10000,
        ) as usize);
        config.max_parallel_workers = parse_workers_var(vars, "MCP_MAX_WORKERS", 0, cpus);
        config.memory_limit = parse_size_var(vars, "MCP_MEMORY_LIMIT", 0);
        config.validate();
        config
    }

    /// The configuration given by the environment variables `vars` (name,
    /// value), with the worker count capped by the processors of this machine.
    pub fn from_env(vars: &Vec<(String, String)>) -> (r: Self)
        ensures
            exists|cpus: nat| cpus >= 1 && r == config_from_vars(vars@, cpus),
    {
        let cpus = cpu_count();
        PerformanceConfig::from_vars_with_cpus(vars, cpus)
    }

    /// Whether a file of `file_size` bytes is streamed: above 100 MiB, when
    /// streaming is enabled.
    pub fn should_use_streaming(&self, file_size: u64) -> (r: bool)
        ensures
            r == (self.enable_streaming && file_size > STREAMING_THRESHOLD),
    {
        self.enable_streaming && file_size > STREAMING_THRESHOLD
    }

    /// Whether content of `content_size` bytes is compressed.
    pub fn should_compress(&self, content_size: usize) -> (r: bool)
        ensures
            r == (self.enable_compression && content_size > self.compression_threshold),
    {
        self.enable_compression && content_size > self.compression_threshold
    }

    /// Whether content of `content_size` bytes is processed in parallel.
    pub fn should_use_parallel(&self, content_size: usize) -> (r: bool)
        ensures
            r == (self.enable_parallel_processing && content_size > self.parallel_threshold),
    {
        self.enable_parallel_processing && content_size > self.parallel_threshold
    }

    /// Whether a file of `file_size` bytes is memory-mapped: non-empty and
    /// within the limit.
    pub fn should_use_memory_map(&self, file_size: u64) -> (r: bool)
        ensures
            r == (file_size <= self.max_file_size_for_memory_map && file_size > 0),
    {
        file_size <= self.max_file_size_for_memory_map && file_size > 0
    }

    /// The number of workers to use, given the processors of this machine:
    /// the configured count, or all processors when it is 0.
    pub fn worker_count_for(&self, cpus: usize) -> (r: usize)
        ensures
            r == (if self.max_parallel_workers == 0 {
                cpus
            } else {
                self.max_parallel_workers
            }),
    {
        if self.max_parallel_workers == 0 {
            cpus
        } else {
            self.max_parallel_workers
        }
    }

    /// The number of workers to use: the configured count, or the processors
    /// of this machine when it is 0.
    pub fn get_worker_count(&self) -> (r: usize)
        ensures
            self.max_parallel_workers != 0 ==> r == self.max_parallel_workers,
            r >= 1 || self.max_parallel_workers != 0,
    {
        if self.max_parallel_workers == 0 {
            cpu_count()
        } else {
            self.max_parallel_workers
        }
    }

    /// The line logged for an operation that took `millis` milliseconds, when
    /// performance logging is enabled.
    pub fn log_performance(&self, operation: &str, millis: u128, details: &str) -> (r: Option<
        String,
    >)
        ensures
            self.enable_performance_logging ==> (r matches Some(t) && t@ == perf_line(
                operation@,
                millis as nat,
                details@,
            )),
            !self.enable_performance_logging ==> r is None,
    {
        if self.enable_performance_logging {
            let mut out = chars_of("[PERF] ");
            out.extend_from_slice(chars_of(operation).as_slice());
            out.extend_from_slice(chars_of(" took ").as_slice());
            out.extend_from_slice(decimal_chars(millis).as_slice());
            out.extend_from_slice(chars_of("ms - ").as_slice());
            out.extend_from_slice(chars_of(details).as_slice());
            assert(out@ =~= perf_line(operation@, millis as nat, details@));
            Some(string_of(out.as_slice()))
        } else {
            None
        }
    }
}

/// `[PERF] <operation> took <millis>ms - <details>`.
pub open spec fn perf_line(operation: Seq<char>, millis: nat, details: Seq<char>) -> Seq<char> {
    "[PERF] "@ + operation + " took "@ + decimal(millis) + "ms - "@ + details
}

/// Detected hardware features and sizes.
pub struct HardwareCapabilities {
    pub has_avx2: bool,
    pub has_sse4_2: bool,
    pub cpu_cores: usize,
    pub memory_gb: usize,
}

/// Memory assumed when the total cannot be read: 8 GiB.
pub const FALLBACK_MEMORY: u64 = 8 * 1024 * 1024 * 1024;

pub const GIB: u64 = 1024 * 1024 * 1024;

/// Memory-map limit on machines with little memory: 100 MiB.
pub const SMALL_MEMORY_MAP_SIZE: u64 = 100 * 1024 * 1024;

pub open spec fn optimal_config(h: HardwareCapabilities) -> PerformanceConfig {
    let d = default_config();
    PerformanceConfig {
        max_parallel_workers: if h.cpu_cores >= 8 {
            (h.cpu_cores / 2) as usize
        } else {
            d.max_parallel_workers
        },
        max_file_size_for_memory_map: if h.memory_gb >= 16 {
            GIB
        } else if h.memory_gb >= 8 {
            DEFAULT_MEMORY_MAP_SIZE
        } else {
            SMALL_MEMORY_MAP_SIZE
        },
        enable_simd: h.has_avx2 || h.has_sse4_2,
        ..d
    }
}

impl HardwareCapabilities {
    /// The capabilities from what was measured: the processors, the total
    /// memory in bytes (8 GiB when unknown, counted in whole GiB) and the
    /// SIMD features.
    pub fn from_measurements(
        cpu_cores: usize,
        total_memory: Option<u64>,
        has_avx2: bool,
        has_sse4_2: bool,
    ) -> (r: Self)
        ensures
            r.cpu_cores == cpu_cores,
            r.has_avx2 == has_avx2,
            r.has_sse4_2 == has_sse4_2,
            r.memory_gb == ((match total_memory {
                Some(t) => t,
                None => FALLBACK_MEMORY,
            }) / GIB) as usize,
    {
        let total = match total_memory {
            Some(t) => t,
            None => FALLBACK_MEMORY,
        };
        let gb = total / 1024 / 1024 / 1024;
        assert(gb == total / GIB) by (nonlinear_arith)
            requires
                gb == total / 1024 / 1024 / 1024,
        ;
        HardwareCapabilities {
            has_avx2,
            has_sse4_2,
            cpu_cores,
            memory_gb: #[verifier::truncate] (gb as usize),
        }
    }

    /// The default configuration tuned to this hardware: half the processors
    /// as workers from 8 processors up, a memory-map limit by memory size
    /// (1 GiB from 16 GiB, 500 MiB from 8 GiB, else 100 MiB), and SIMD when
    /// either feature is present.
    pub fn get_optimal_config(&self) -> (r: PerformanceConfig)
        ensures
            r == optimal_config(*self),
    {
        let mut config = PerformanceConfig::default();
        if self.cpu_cores >= 8 {
            config.max_parallel_workers = self.cpu_cores / 2;
        }
        if self.memory_gb >= 16 {
            config.max_file_size_for_memory_map = GIB;
        } else if self.memory_gb >= 8 {
            config.max_file_size_for_memory_map = DEFAULT_MEMORY_MAP_SIZE;
        } else {
            config.max_file_size_for_memory_map = SMALL_MEMORY_MAP_SIZE;
        }
        config.enable_simd = self.has_avx2 || self.has_sse4_2;
        config
    }
}

/// `std::time::Instant`, carried through as an opaque value.
#[verifier::external_type_specification]
#[verifier::external_body]
pub struct ExInstant(std::time::Instant);

/// Relies on `std::time::Instant::now`: the current instant.
#[verifier::external_body]
fn now() -> (r: std::time::Instant) {
    std::time::Instant::now()
}

/// Relies on `Instant::elapsed`: the time since `start`.
#[verifier::external_body]
fn elapsed(start: &std::time::Instant) -> (r: std::time::Duration) {
    start.elapsed()
}

/// Relies on `Duration::as_millis`: the whole milliseconds of `d`.
#[verifier::external_body]
fn whole_millis(d: std::time::Duration) -> (r: u128) {
    d.as_millis()
}

/// Times one operation and produces its log line.
pub struct PerformanceMonitor {
    start_time: std::time::Instant,
    operation_name: String,
    config: PerformanceConfig,
}

impl PerformanceMonitor {
    pub closed spec fn operation(&self) -> Seq<char> {
        self.operation_name@
    }

    pub closed spec fn settings(&self) -> PerformanceConfig {
        self.config
    }

    /// Starts timing the operation `operation_name` now.
    pub fn new(operation_name: &str, config: &PerformanceConfig) -> (r: Self)
        ensures
            r.operation() == operation_name@,
            r.settings() == *config,
    {
        PerformanceMonitor {
            start_time: now(),
            operation_name: string_of(chars_of(operation_name).as_slice()),
            config: *config,
        }
    }

    /// The log line for the operation, with the milliseconds elapsed since it
    /// started and `details`, when logging is enabled.
    pub fn finish_with_details(&self, details: &str) -> (r: Option<String>)
        ensures
            self.settings().enable_performance_logging ==> (r matches Some(t) && exists|ms: nat|
                t@ == perf_line(self.operation(), ms, details@)),
            !self.settings().enable_performance_logging ==> r is None,
    {
        let millis = whole_millis(elapsed(&self.start_time));
        let r = self.config.log_performance(self.operation_name.as_str(), millis, details);
        proof {
            if self.config.enable_performance_logging {
                assert(r->0@ == perf_line(self.operation(), millis as nat, details@));
            }
        }
        r
    }

    /// The log line for the operation, with no details.
    pub fn finish(&self) -> (r: Option<String>)
        ensures
            self.settings().enable_performance_logging ==> (r matches Some(t) && exists|ms: nat|
                t@ == perf_line(self.operation(), ms, ""@)),
            !self.settings().enable_performance_logging ==> r is None,
    {
        self.finish_with_details("")
    }
}

/// A running estimate of memory use, in bytes.
pub struct MemoryEstimator {
    pub estimated_usage: usize,
}

impl MemoryEstimator {
    pub fn new() -> (r: Self)
        ensures
            r.estimated_usage == 0,
    {
        MemoryEstimator { estimated_usage: 0 }
    }

    /// Counts a file of `size` bytes.
    pub fn add_file_size(&mut self, size: u64)
        requires
            old(self).estimated_usage + size <= usize::MAX,
        ensures
            final(self).estimated_usage == old(self).estimated_usage + size,
    {
        self.estimated_usage = self.estimated_usage + size as usize;
    }

    /// Counts a string of `size` characters, at two bytes each.
    pub fn add_string_size(&mut self, size: usize)
        requires
            old(self).estimated_usage + 2 * size <= usize::MAX,
        ensures
            final(self).estimated_usage == old(self).estimated_usage + 2 * size,
    {
        self.estimated_usage = self.estimated_usage + size * 2;
    }

    /// Counts a vector with room for `capacity` items of type `T`.
    pub fn add_vector_size<T>(&mut self, capacity: usize)
        requires
            old(self).estimated_usage + capacity * vstd::layout::size_of::<T>() <= usize::MAX,
        ensures
            final(self).estimated_usage == old(self).estimated_usage + capacity
                * vstd::layout::size_of::<T>(),
    {
        let item = core::mem::size_of::<T>();
        assert(capacity * item <= usize::MAX) by (nonlinear_arith)
            requires
                self.estimated_usage + capacity * item <= usize::MAX,
                self.estimated_usage >= 0,
        ;
        self.estimated_usage = self.estimated_usage + capacity * item;
    }

    /// Whether the estimate is within the configured limit (0: no limit).
    pub fn check_limit(&self, config: &PerformanceConfig) -> (r: bool)
        ensures
            r == (config.memory_limit == 0 || self.estimated_usage < config.memory_limit),
    {
        config.memory_limit == 0 || (self.estimated_usage as u128) < (config.memory_limit as u128)
    }
}

/// Failures of the performance machinery.
#[derive(Debug)]
pub enum PerformanceError {
    MemoryLimitExceeded(String),
    OptimizationNotAvailable(String),
    HardwareNotSupported(String),
}

pub open spec fn error_text(e: PerformanceError) -> Seq<char> {
    match e {
        PerformanceError::MemoryLimitExceeded(m) => "Memory limit exceeded: "@ + m@,
        PerformanceError::OptimizationNotAvailable(m) => "Optimization not available: "@ + m@,
        PerformanceError::HardwareNotSupported(m) => "Hardware not supported: "@ + m@,
    }
}

impl PerformanceError {
    /// The message shown for the failure.
    pub fn describe(&self) -> (r: String)
        ensures
            r@ == error_text(*self),
    {
        let (mut out, m) = match self {
            PerformanceError::MemoryLimitExceeded(m) => (chars_of("Memory limit exceeded: "), m),
            PerformanceError::OptimizationNotAvailable(m) => (
                chars_of("Optimization not available: "),
                m,
            ),
            PerformanceError::HardwareNotSupported(m) => (chars_of("Hardware not supported: "), m),
        };
        out.extend_from_slice(chars_of(m.as_str()).as_slice());
        string_of(out.as_slice())
    }
}

} // verus!
