//! Per-cycle orchestration decisions.
//!
//! Each tick the orchestrator refreshes local counters, fans the
//! external collectors out, and assembles one snapshot. The decisions —
//! which collectors to run, and what a disabled or failed source
//! contributes — are made here; the surrounding application only
//! performs the timed I/O that the plan asks for.

use vstd::prelude::*;
use crate::config::CollectorsConfig;
use crate::models::{
    CpuInfo, DiskInfo, DockerContainer, GpuInfo, LoadAverage, MemoryInfo, NetworkInfo, PortInfo,
    ProcessInfo, RealtimeData,
};

verus! {

/// Which collectors one cycle runs. A disabled source is skipped
/// without invoking its collector at all.
#[derive(Clone, Copy, Debug, PartialEq, Eq, Structural)]
pub struct CyclePlan {
    pub gpu: bool,
    pub sensors: bool,
    pub ports: bool,
    pub processes: bool,
    pub docker: bool,
}

pub open spec fn spec_plan(cfg: CollectorsConfig) -> CyclePlan {
    CyclePlan {
        gpu: cfg.enable_gpu,
        sensors: cfg.enable_sensors,
        ports: cfg.enable_ports,
        processes: cfg.enable_processes,
        docker: cfg.enable_docker,
    }
}

/// The collector set of one cycle: exactly the sources the
/// configuration enables.
pub fn plan_cycle(cfg: &CollectorsConfig) -> (r: CyclePlan)
    ensures
        r == spec_plan(*cfg),
{
    CyclePlan {
        gpu: cfg.enable_gpu,
        sensors: cfg.enable_sensors,
        ports: cfg.enable_ports,
        processes: cfg.enable_processes,
        docker: cfg.enable_docker,
    }
}

/// The unified snapshot of one cycle. Local fields are taken as
/// computed; each external source contributes its collected value only
/// when the plan ran it, and degrades to empty or absent otherwise —
/// so with every source disabled the snapshot still carries the full
/// local state and nothing else.
pub fn assemble_snapshot(
    plan: &CyclePlan,
    timestamp: i64,
    cpu: CpuInfo,
    memory: MemoryInfo,
    disks: Vec<DiskInfo>,
    network: NetworkInfo,
    load_average: LoadAverage,
    uptime_secs: u64,
    gpu_collected: Option<Vec<GpuInfo>>,
    ports_collected: Vec<PortInfo>,
    processes_collected: Vec<ProcessInfo>,
    docker_collected: Vec<DockerContainer>,
) -> (r: RealtimeData)
    ensures
        r.timestamp == timestamp,
        r.cpu == cpu,
        r.memory == memory,
        r.disks == disks,
        r.network == network,
        r.load_average == load_average,
        r.uptime_secs == uptime_secs,
        plan.gpu ==> r.gpu == gpu_collected,
        !plan.gpu ==> r.gpu is None,
        plan.ports ==> r.ports == ports_collected,
        !plan.ports ==> r.ports@ == Seq::<PortInfo>::empty(),
        plan.processes ==> r.processes == processes_collected,
        !plan.processes ==> r.processes@ == Seq::<ProcessInfo>::empty(),
        plan.docker ==> r.docker_containers == docker_collected,
        !plan.docker ==> r.docker_containers@ == Seq::<DockerContainer>::empty(),
{
    let gpu = if plan.gpu {
        gpu_collected
    } else {
        None
    };
    let ports = if plan.ports {
        ports_collected
    } else {
        Vec::new()
    };
    let processes = if plan.processes {
        processes_collected
    } else {
        Vec::new()
    };
    let docker_containers = if plan.docker {
        docker_collected
    } else {
        Vec::new()
    };
    RealtimeData {
        timestamp,
        cpu,
        memory,
        disks,
        network,
        load_average,
        uptime_secs,
        gpu,
        ports,
        processes,
        docker_containers,
    }
}

} // verus!
