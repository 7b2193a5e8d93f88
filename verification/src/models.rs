//! The data model of the telemetry pipeline.
//!
//! A snapshot is built fresh every cycle and is immutable once
//! constructed. Quantities that the underlying system reports with a
//! fractional part are held as exact integers in a fixed sub-unit:
//! percentages in hundredths of a percent (`_centi`), temperatures and
//! power in thousandths of their unit (`_milli`), and sizes in
//! millionths of a megabyte (`_micro_mb`). Text that is cut out of raw
//! tool output stays as bytes.

use vstd::prelude::*;

verus! {

/// One complete telemetry sample covering all enabled sources for a tick.
#[derive(Clone, Debug)]
pub struct RealtimeData {
    pub timestamp: i64,
    pub cpu: CpuInfo,
    pub memory: MemoryInfo,
    pub disks: Vec<DiskInfo>,
    pub network: NetworkInfo,
    pub load_average: LoadAverage,
    pub uptime_secs: u64,
    pub gpu: Option<Vec<GpuInfo>>,
    pub ports: Vec<PortInfo>,
    pub processes: Vec<ProcessInfo>,
    pub docker_containers: Vec<DockerContainer>,
}

#[derive(Clone, Debug)]
pub struct CpuInfo {
    pub total_usage_centi: u32,
    pub core_usage_centi: Vec<u32>,
    pub temperature_milli_c: Option<u64>,
    pub power_milli_w: Option<u64>,
}

#[derive(Clone, Debug)]
pub struct MemoryInfo {
    pub total_kb: u64,
    pub used_kb: u64,
    pub free_kb: u64,
    pub used_percent_centi: u32,
    pub swap_total_kb: u64,
    pub swap_used_kb: u64,
    pub swap_free_kb: u64,
    pub swap_used_percent_centi: u32,
}

#[derive(Clone, Debug)]
pub struct DiskInfo {
    pub name: String,
    pub mount_point: String,
    pub file_system: String,
    pub total_bytes: u64,
    pub used_bytes: u64,
    pub free_bytes: u64,
    pub used_percent_centi: u32,
}

#[derive(Clone, Debug)]
pub struct NetworkInfo {
    pub interfaces: Vec<NetworkInterface>,
    pub rx_delta_bytes: u64,
    pub tx_delta_bytes: u64,
    pub total_rx_bytes: u64,
    pub total_tx_bytes: u64,
}

#[derive(Clone, Debug)]
pub struct NetworkInterface {
    pub name: String,
    pub ipv4: Vec<String>,
    pub ipv6: Vec<String>,
}

#[derive(Clone, Debug)]
pub struct LoadAverage {
    pub one_centi: u64,
    pub five_centi: u64,
    pub fifteen_centi: u64,
}

#[derive(Clone, Debug)]
pub struct GpuInfo {
    pub name: Vec<u8>,
    pub index: u32,
    pub memory_total_mb: u32,
    pub memory_used_mb: u32,
    pub memory_free_mb: u32,
    pub utilization_percent: u8,
    pub temperature_celsius: u8,
    pub power_draw_milli_w: Option<u64>,
    pub power_limit_milli_w: Option<u64>,
    pub fan_speed_percent: Option<u8>,
    pub graphics_clock_mhz: Option<u32>,
    pub memory_clock_mhz: Option<u32>,
}

/// One listening or established socket.
#[derive(Clone, Debug)]
pub struct PortInfo {
    pub port: u16,
    pub protocol: Vec<u8>,
    pub state: Vec<u8>,
    pub program: Vec<u8>,
    pub pid: Option<u32>,
    pub address: Vec<u8>,
}

/// The OS process states the snapshot distinguishes.
#[derive(Clone, Copy, Debug, PartialEq, Eq, Structural)]
pub enum ProcessStateKind {
    Run,
    Sleep,
    Idle,
    Zombie,
    Other,
}

#[derive(Clone, Debug)]
pub struct ProcessInfo {
    pub pid: u32,
    pub name: String,
    pub cpu_percent_centi: u32,
    pub memory_percent_centi: u32,
    pub memory_bytes: u64,
    pub status: ProcessStateKind,
    pub user: Option<String>,
    pub command: String,
    pub start_time: Option<i64>,
}

#[derive(Clone, Debug)]
pub struct DockerContainer {
    pub id: Vec<u8>,
    pub name: Vec<u8>,
    pub image: Vec<u8>,
    pub status: Vec<u8>,
    pub state: ContainerState,
    pub created: i64,
    pub ports: Vec<PortMapping>,
    pub cpu_percent_centi: u64,
    pub memory_usage_micro_mb: u64,
    pub memory_limit_micro_mb: u64,
    pub memory_percent_centi: u64,
    pub network_rx_micro_mb: u64,
    pub network_tx_micro_mb: u64,
}

#[derive(Clone, Debug)]
pub struct ContainerState {
    pub running: bool,
    pub paused: bool,
    pub restarting: bool,
    pub dead: bool,
    pub pid: Option<i32>,
    pub exit_code: Option<i32>,
    pub started_at: Option<String>,
    pub finished_at: Option<String>,
}

#[derive(Clone, Debug)]
pub struct PortMapping {
    pub container_port: u16,
    pub host_port: Option<u16>,
    pub protocol: Vec<u8>,
    pub host_ip: Option<Vec<u8>>,
}

#[derive(Clone, Debug)]
pub struct DockerVolume {
    pub name: String,
    pub driver: String,
    pub mount_point: String,
    pub created: String,
    pub size: Option<String>,
}

#[derive(Clone, Debug)]
pub struct DockerNetwork {
    pub id: String,
    pub name: String,
    pub driver: String,
    pub scope: String,
    pub internal: bool,
    pub containers: usize,
}

/// Static description of the host, computed once on demand.
#[derive(Clone, Debug)]
pub struct SystemStaticInfo {
    pub os_name: String,
    pub kernel_version: String,
    pub hostname: String,
    pub cpu_cores: usize,
    pub cpu_brand: String,
    pub total_memory_bytes: u64,
}

#[derive(Clone, Copy, Debug, PartialEq, Eq, Structural)]
pub enum ServiceStatus {
    Online,
    Offline,
}

#[derive(Clone, Debug)]
pub struct ServiceCard {
    pub name: String,
    pub url: String,
    pub icon: String,
    pub description: String,
    pub status: ServiceStatus,
}

#[derive(Clone, Debug)]
pub struct FileInfo {
    pub name: String,
    pub path: String,
    pub size: u64,
    pub is_dir: bool,
    pub is_file: bool,
    pub is_symlink: bool,
    pub modified: i64,
    pub permissions: String,
    pub owner: Option<String>,
    pub group: Option<String>,
}

#[derive(Clone, Debug)]
pub struct DirectoryListing {
    pub path: String,
    pub parent: Option<String>,
    pub files: Vec<FileInfo>,
}

#[derive(Clone, Debug)]
pub struct UploadResponse {
    pub success: bool,
    pub message: String,
    pub file_path: Option<String>,
}

#[derive(Clone, Debug)]
pub struct FileQuery {
    pub path: Option<String>,
}

#[derive(Clone, Debug)]
pub struct CreateDirRequest {
    pub path: String,
    pub name: String,
}

#[derive(Clone, Debug)]
pub struct DeleteRequest {
    pub path: String,
}

#[derive(Clone, Copy, Debug, PartialEq, Eq, Structural)]
pub enum ContainerAction {
    Start,
    Stop,
    Restart,
    Pause,
    Unpause,
}

#[derive(Clone, Debug)]
pub struct ContainerActionRequest {
    pub container_id: String,
    pub action: ContainerAction,
}

#[derive(Clone, Debug)]
pub struct ActionResponse {
    pub success: bool,
    pub message: String,
}

#[derive(Clone, Debug)]
pub struct LogsParams {
    pub tail: Option<usize>,
}

} // verus!
