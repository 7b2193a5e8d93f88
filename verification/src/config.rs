//! Pipeline configuration.
//!
//! Settings are immutable per process: loaded once at startup by the
//! surrounding application and handed to the orchestrator by value.
//! Every duration is carried in whole seconds.

use vstd::prelude::*;

verus! {

/// Top level of the monitoring configuration.
#[derive(Clone, Debug)]
pub struct GlobalConfig {
    pub collectors: CollectorsConfig,
    pub performance: PerformanceConfig,
}

/// Which sources run, and the pacing of the sampling loop.
#[derive(Clone, Debug)]
pub struct CollectorsConfig {
    pub collect_interval_secs: u64,
    pub enable_gpu: bool,
    pub enable_ports: bool,
    pub enable_processes: bool,
    pub enable_sensors: bool,
    pub enable_docker: bool,
    pub command_timeout_secs: u64,
    pub max_processes: usize,
}

/// Cache and timeout tuning.
#[derive(Clone, Debug)]
pub struct PerformanceConfig {
    pub gpu_cache_ttl_secs: u64,
    pub sensors_cache_ttl_secs: u64,
    pub port_scan_timeout_secs: u64,
    pub history_size: usize,
}

pub fn default_collect_interval() -> (r: u64)
    ensures
        r == 1,
{
    1
}

pub fn default_true() -> (r: bool)
    ensures
        r,
{
    true
}

pub fn default_command_timeout() -> (r: u64)
    ensures
        r == 5,
{
    5
}

pub fn default_max_processes() -> (r: usize)
    ensures
        r == 20,
{
    20
}

pub fn default_gpu_cache_ttl() -> (r: u64)
    ensures
        r == 5,
{
    5
}

pub fn default_sensors_cache_ttl() -> (r: u64)
    ensures
        r == 10,
{
    10
}

pub fn default_port_scan_timeout() -> (r: u64)
    ensures
        r == 3,
{
    3
}

pub fn default_history_size() -> (r: usize)
    ensures
        r == 60,
{
    60
}

/// The default collectors configuration: every source enabled, one
/// second between cycles, five-second command timeout, twenty processes.
pub open spec fn spec_default_collectors_config() -> CollectorsConfig {
    CollectorsConfig {
        collect_interval_secs: 1,
        enable_gpu: true,
        enable_ports: true,
        enable_processes: true,
        enable_sensors: true,
        enable_docker: true,
        command_timeout_secs: 5,
        max_processes: 20,
    }
}

impl Default for CollectorsConfig {
    fn default() -> (r: Self)
        ensures
            r == spec_default_collectors_config(),
    {
        CollectorsConfig {
            collect_interval_secs: default_collect_interval(),
            enable_gpu: default_true(),
            enable_ports: default_true(),
            enable_processes: default_true(),
            enable_sensors: default_true(),
            enable_docker: default_true(),
            command_timeout_secs: default_command_timeout(),
            max_processes: default_max_processes(),
        }
    }
}

/// The default performance configuration: five-second GPU cache,
/// ten-second sensors cache, three-second port scan timeout, sixty
/// history entries.
pub open spec fn spec_default_performance_config() -> PerformanceConfig {
    PerformanceConfig {
        gpu_cache_ttl_secs: 5,
        sensors_cache_ttl_secs: 10,
        port_scan_timeout_secs: 3,
        history_size: 60,
    }
}

impl Default for PerformanceConfig {
    fn default() -> (r: Self)
        ensures
            r == spec_default_performance_config(),
    {
        PerformanceConfig {
            gpu_cache_ttl_secs: default_gpu_cache_ttl(),
            sensors_cache_ttl_secs: default_sensors_cache_ttl(),
            port_scan_timeout_secs: default_port_scan_timeout(),
            history_size: default_history_size(),
        }
    }
}

impl Default for GlobalConfig {
    fn default() -> (r: Self)
        ensures
            r.collectors == spec_default_collectors_config(),
            r.performance == spec_default_performance_config(),
    {
        GlobalConfig {
            collectors: CollectorsConfig::default(),
            performance: PerformanceConfig::default(),
        }
    }
}

/// The orchestrator's working configuration, distilled from the global
/// configuration.
#[derive(Clone, Debug)]
pub struct CollectorConfig {
    pub command_timeout_secs: u64,
    pub gpu_cache_ttl_secs: u64,
    pub sensors_cache_ttl_secs: u64,
    pub port_scan_timeout_secs: u64,
    pub max_processes: usize,
    pub enable_fallback: bool,
}

pub open spec fn spec_collector_config_from(config: GlobalConfig) -> CollectorConfig {
    CollectorConfig {
        command_timeout_secs: config.collectors.command_timeout_secs,
        gpu_cache_ttl_secs: config.performance.gpu_cache_ttl_secs,
        sensors_cache_ttl_secs: config.performance.sensors_cache_ttl_secs,
        port_scan_timeout_secs: config.performance.port_scan_timeout_secs,
        max_processes: config.collectors.max_processes,
        enable_fallback: true,
    }
}

impl From<GlobalConfig> for CollectorConfig {
    fn from(config: GlobalConfig) -> (r: CollectorConfig) {
        CollectorConfig {
            command_timeout_secs: config.collectors.command_timeout_secs,
            gpu_cache_ttl_secs: config.performance.gpu_cache_ttl_secs,
            sensors_cache_ttl_secs: config.performance.sensors_cache_ttl_secs,
            port_scan_timeout_secs: config.performance.port_scan_timeout_secs,
            max_processes: config.collectors.max_processes,
            enable_fallback: true,
        }
    }
}

impl vstd::std_specs::convert::FromSpecImpl<GlobalConfig> for CollectorConfig {
    open spec fn obeys_from_spec() -> bool {
        true
    }

    open spec fn from_spec(config: GlobalConfig) -> CollectorConfig {
        spec_collector_config_from(config)
    }
}

impl Default for CollectorConfig {
    fn default() -> (r: Self)
        ensures
            r.command_timeout_secs == 5,
            r.gpu_cache_ttl_secs == 5,
            r.sensors_cache_ttl_secs == 10,
            r.port_scan_timeout_secs == 3,
            r.max_processes == 20,
            r.enable_fallback,
    {
        CollectorConfig {
            command_timeout_secs: 5,
            gpu_cache_ttl_secs: 5,
            sensors_cache_ttl_secs: 10,
            port_scan_timeout_secs: 3,
            max_processes: 20,
            enable_fallback: true,
        }
    }
}

/// Address and port the server part binds to.
#[derive(Clone, Debug)]
pub struct ServerConfig {
    pub host: String,
    pub port: u16,
}

/// The dashboard services sharing one IP.
#[derive(Clone, Debug)]
pub struct ServicesConfig {
    pub ip: String,
    pub items: Vec<ServiceCardConfig>,
}

/// One configured dashboard service.
#[derive(Clone, Debug)]
pub struct ServiceCardConfig {
    pub name: String,
    pub port: u16,
    pub icon: String,
    pub description: String,
    pub protocol: String,
    pub health_check_path: Option<String>,
}

/// The whole process configuration.
#[derive(Clone, Debug)]
pub struct Config {
    pub server: ServerConfig,
    pub services: ServicesConfig,
    pub monitoring: GlobalConfig,
}

pub fn default_protocol() -> (r: String)
    ensures
        r@ == "http"@,
{
    "http".to_owned()
}

/// The server binding used when no configuration file is available.
pub fn default_server_config() -> (r: ServerConfig)
    ensures
        r.host@ == "0.0.0.0"@,
        r.port == 9876,
{
    ServerConfig { host: "0.0.0.0".to_owned(), port: 9876 }
}

} // verus!
