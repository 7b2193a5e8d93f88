use index_rs::config::{
    default_protocol, CollectorConfig, CollectorsConfig, GlobalConfig, PerformanceConfig,
    ServiceCardConfig,
};
use index_rs::control::{container_action_command, container_action_timeout_secs, logs_tail_or_default};
use index_rs::cycle::{assemble_snapshot, plan_cycle};
use index_rs::health::{CollectorState, HealthLevel, HealthMonitor};
use index_rs::local::{assemble_cpu_info, collect_memory_info, NetRateTracker};
use index_rs::models::{
    ContainerAction, ContainerState, DockerContainer, GpuInfo, LoadAverage, LogsParams, PortInfo,
    ProcessInfo, ProcessStateKind, ServiceStatus,
};
use index_rs::numbers::parse_with_default;
use index_rs::runner::{classify_command_result, CommandFailure};
use index_rs::services::{
    default_config, get_default_services_config, make_service_card, port_to_string,
    service_health_url, service_status_from_http, service_url,
};

fn sample_gpu() -> GpuInfo {
    GpuInfo {
        name: b"RTX".to_vec(),
        index: 0,
        memory_total_mb: 8192,
        memory_used_mb: 1024,
        memory_free_mb: 7168,
        utilization_percent: 10,
        temperature_celsius: 45,
        power_draw_milli_w: None,
        power_limit_milli_w: None,
        fan_speed_percent: None,
        graphics_clock_mhz: None,
        memory_clock_mhz: None,
    }
}

fn sample_port() -> PortInfo {
    PortInfo {
        port: 22,
        protocol: b"TCP".to_vec(),
        state: b"LISTEN".to_vec(),
        program: b"sshd".to_vec(),
        pid: Some(1),
        address: b"0.0.0.0:22".to_vec(),
    }
}

fn sample_process() -> ProcessInfo {
    ProcessInfo {
        pid: 1,
        name: "init".to_string(),
        cpu_percent_centi: 0,
        memory_percent_centi: 0,
        memory_bytes: 0,
        status: ProcessStateKind::Sleep,
        user: None,
        command: String::new(),
        start_time: None,
    }
}

fn sample_container() -> DockerContainer {
    DockerContainer {
        id: b"a".to_vec(),
        name: b"n".to_vec(),
        image: b"i".to_vec(),
        status: b"s".to_vec(),
        state: ContainerState {
            running: true,
            paused: false,
            restarting: false,
            dead: false,
            pid: None,
            exit_code: None,
            started_at: None,
            finished_at: None,
        },
        created: 0,
        ports: Vec::new(),
        cpu_percent_centi: 0,
        memory_usage_micro_mb: 0,
        memory_limit_micro_mb: 0,
        memory_percent_centi: 0,
        network_rx_micro_mb: 0,
        network_tx_micro_mb: 0,
    }
}

#[test]
fn all_sources_disabled_still_yields_a_full_local_snapshot() {
    let cfg = CollectorsConfig {
        collect_interval_secs: 1,
        enable_gpu: false,
        enable_ports: false,
        enable_processes: false,
        enable_sensors: false,
        enable_docker: false,
        command_timeout_secs: 5,
        max_processes: 20,
    };
    let plan = plan_cycle(&cfg);
    assert!(!plan.gpu && !plan.ports && !plan.processes && !plan.sensors && !plan.docker);

    let memory = collect_memory_info(1_000_000, 400_000, 600_000, 0, 0, 0);
    let cpu = assemble_cpu_info(1234, vec![1200, 1300], None, None);
    let mut tracker = NetRateTracker::new();
    let network = tracker.observe(Vec::new());
    let load = LoadAverage { one_centi: 15, five_centi: 20, fifteen_centi: 25 };

    // even with collected values at hand, a disabled source contributes nothing
    let snap = assemble_snapshot(
        &plan,
        1_700_000_000,
        cpu,
        memory,
        Vec::new(),
        network,
        load,
        3600,
        Some(vec![sample_gpu()]),
        vec![sample_port()],
        vec![sample_process()],
        vec![sample_container()],
    );
    assert!(snap.gpu.is_none());
    assert!(snap.ports.is_empty());
    assert!(snap.processes.is_empty());
    assert!(snap.docker_containers.is_empty());
    assert_eq!(snap.timestamp, 1_700_000_000);
    assert_eq!(snap.uptime_secs, 3600);
    assert_eq!(snap.memory.used_percent_centi, 4_000);
    assert_eq!(snap.cpu.total_usage_centi, 1234);
    assert_eq!(snap.load_average.one_centi, 15);
}

#[test]
fn enabled_sources_pass_their_collections_through() {
    let cfg = CollectorsConfig::default();
    let plan = plan_cycle(&cfg);
    assert!(plan.gpu && plan.ports && plan.processes && plan.sensors && plan.docker);
    let memory = collect_memory_info(1_000, 1, 999, 0, 0, 0);
    let cpu = assemble_cpu_info(0, Vec::new(), Some(45_000), Some(13_000));
    let mut tracker = NetRateTracker::new();
    let network = tracker.observe(Vec::new());
    let load = LoadAverage { one_centi: 0, five_centi: 0, fifteen_centi: 0 };
    let snap = assemble_snapshot(
        &plan,
        0,
        cpu,
        memory,
        Vec::new(),
        network,
        load,
        0,
        Some(vec![sample_gpu()]),
        vec![sample_port()],
        vec![sample_process()],
        vec![sample_container()],
    );
    assert_eq!(snap.gpu.as_ref().map(|g| g.len()), Some(1));
    assert_eq!(snap.ports.len(), 1);
    assert_eq!(snap.processes.len(), 1);
    assert_eq!(snap.docker_containers.len(), 1);
    assert_eq!(snap.cpu.temperature_milli_c, Some(45_000));
}

#[test]
fn default_configuration_values_match_the_documented_defaults() {
    let c = CollectorsConfig::default();
    assert_eq!(c.collect_interval_secs, 1);
    assert!(c.enable_gpu && c.enable_ports && c.enable_processes && c.enable_sensors);
    assert!(c.enable_docker);
    assert_eq!(c.command_timeout_secs, 5);
    assert_eq!(c.max_processes, 20);
    let p = PerformanceConfig::default();
    assert_eq!(p.gpu_cache_ttl_secs, 5);
    assert_eq!(p.sensors_cache_ttl_secs, 10);
    assert_eq!(p.port_scan_timeout_secs, 3);
    assert_eq!(p.history_size, 60);
    let g = GlobalConfig::default();
    let cc = CollectorConfig::from(g);
    assert_eq!(cc.command_timeout_secs, 5);
    assert_eq!(cc.gpu_cache_ttl_secs, 5);
    assert_eq!(cc.sensors_cache_ttl_secs, 10);
    assert_eq!(cc.port_scan_timeout_secs, 3);
    assert_eq!(cc.max_processes, 20);
    assert!(cc.enable_fallback);
    assert_eq!(default_protocol(), "http");
}

#[test]
fn default_config_covers_server_services_and_monitoring() {
    let c = default_config();
    assert_eq!(c.server.host, "0.0.0.0");
    assert_eq!(c.server.port, 9876);
    assert_eq!(c.services.ip, "localhost");
    assert_eq!(c.services.items.len(), 4);
    assert!(c.monitoring.collectors.enable_gpu);
}

#[test]
fn default_services_are_the_four_builtin_cards() {
    let s = get_default_services_config();
    assert_eq!(s.ip, "localhost");
    let names: Vec<&str> = s.items.iter().map(|i| i.name.as_str()).collect();
    assert_eq!(names, vec!["Gitea", "Nextcloud", "Jellyfin", "Home Assistant"]);
    let ports: Vec<u16> = s.items.iter().map(|i| i.port).collect();
    assert_eq!(ports, vec![3000, 8080, 8096, 8123]);
    assert_eq!(s.items[0].description, "Git仓库管理");
    assert!(s.items.iter().all(|i| i.protocol == "http" && i.health_check_path.is_none()));
}

#[test]
fn service_urls_are_built_from_protocol_ip_and_port() {
    let item = ServiceCardConfig {
        name: "Gitea".to_string(),
        port: 3000,
        icon: String::new(),
        description: String::new(),
        protocol: "http".to_string(),
        health_check_path: Some("/healthz".to_string()),
    };
    let url = service_url(&item, "192.168.1.10");
    assert_eq!(url, "http://192.168.1.10:3000");
    assert_eq!(service_health_url(&item, url.as_str()), "http://192.168.1.10:3000/healthz");
    let bare = ServiceCardConfig { health_check_path: None, ..item };
    assert_eq!(service_health_url(&bare, url.as_str()), "http://192.168.1.10:3000");
    assert_eq!(port_to_string(0), "0");
    assert_eq!(port_to_string(65535), "65535");
}

#[test]
fn http_status_decides_online_or_offline() {
    assert_eq!(service_status_from_http(200), ServiceStatus::Online);
    assert_eq!(service_status_from_http(302), ServiceStatus::Online);
    assert_eq!(service_status_from_http(399), ServiceStatus::Online);
    assert_eq!(service_status_from_http(400), ServiceStatus::Offline);
    assert_eq!(service_status_from_http(404), ServiceStatus::Offline);
    assert_eq!(service_status_from_http(500), ServiceStatus::Offline);
    assert_eq!(service_status_from_http(199), ServiceStatus::Offline);
}

#[test]
fn service_card_carries_config_and_probe_result() {
    let item = ServiceCardConfig {
        name: "Gitea".to_string(),
        port: 3000,
        icon: "fab fa-git-alt".to_string(),
        description: "d".to_string(),
        protocol: "http".to_string(),
        health_check_path: None,
    };
    let card = make_service_card(&item, "http://localhost:3000".to_string(), ServiceStatus::Offline);
    assert_eq!(card.name, "Gitea");
    assert_eq!(card.url, "http://localhost:3000");
    assert_eq!(card.icon, "fab fa-git-alt");
    assert_eq!(card.status, ServiceStatus::Offline);
}

#[test]
fn command_outcomes_classify_into_the_three_failures() {
    assert!(matches!(
        classify_command_result(true, true, true, b"out".to_vec(), b"err".to_vec()),
        Err(CommandFailure::TimedOut)
    ));
    assert!(matches!(
        classify_command_result(false, false, false, Vec::new(), Vec::new()),
        Err(CommandFailure::Unavailable)
    ));
    assert_eq!(
        classify_command_result(false, true, true, b"out".to_vec(), b"err".to_vec()).unwrap(),
        b"out".to_vec()
    );
    match classify_command_result(false, true, false, b"out".to_vec(), b"err".to_vec()) {
        Err(CommandFailure::Failed(stderr)) => assert_eq!(stderr, b"err".to_vec()),
        _ => panic!("expected a non-zero exit classification"),
    }
}

#[test]
fn container_actions_map_to_commands_and_deadlines() {
    assert_eq!(container_action_command(&ContainerAction::Start), "start");
    assert_eq!(container_action_command(&ContainerAction::Stop), "stop");
    assert_eq!(container_action_command(&ContainerAction::Restart), "restart");
    assert_eq!(container_action_command(&ContainerAction::Pause), "pause");
    assert_eq!(container_action_command(&ContainerAction::Unpause), "unpause");
    assert_eq!(container_action_timeout_secs(&ContainerAction::Stop), 30);
    assert_eq!(container_action_timeout_secs(&ContainerAction::Restart), 45);
    assert_eq!(container_action_timeout_secs(&ContainerAction::Start), 10);
    assert_eq!(container_action_timeout_secs(&ContainerAction::Pause), 10);
    assert_eq!(logs_tail_or_default(&LogsParams { tail: Some(5) }), 5);
    assert_eq!(logs_tail_or_default(&LogsParams { tail: None }), 100);
}

#[test]
fn health_monitor_tracks_collector_outcomes() {
    let mut m = HealthMonitor::new(1_000);
    m.register_collector("gpu".to_string());
    m.register_collector("ports".to_string());
    let s0 = m.get_health_status(1_001, "1.0".to_string());
    assert_eq!(s0.status, HealthLevel::Degraded);
    assert_eq!(s0.uptime_seconds, 1);
    assert_eq!(s0.collectors.len(), 2);

    m.update_collector_status(&"gpu".to_string(), true, None, 1_005);
    m.update_collector_status(&"ports".to_string(), true, None, 1_006);
    let s1 = m.get_health_status(1_010, "1.0".to_string());
    assert_eq!(s1.status, HealthLevel::Healthy);
    assert_eq!(s1.uptime_seconds, 10);

    m.update_collector_status(&"gpu".to_string(), false, Some("tool missing".to_string()), 1_011);
    let s2 = m.get_health_status(1_012, "1.0".to_string());
    assert_eq!(s2.status, HealthLevel::Degraded);
    let gpu = s2.collectors.iter().find(|c| c.name == "gpu").unwrap();
    assert_eq!(gpu.status, CollectorState::Error);
    assert_eq!(gpu.error_count, 1);
    assert_eq!(gpu.last_error.as_deref(), Some("tool missing"));
    assert_eq!(gpu.last_update, Some(1_011));
}

#[test]
fn health_monitor_with_no_collectors_is_healthy() {
    let m = HealthMonitor::new(0);
    let s = m.get_health_status(5, "1.0".to_string());
    assert_eq!(s.status, HealthLevel::Healthy);
    assert_eq!(s.uptime_seconds, 5);
}

#[test]
fn parse_with_default_trims_and_falls_back() {
    assert_eq!(parse_with_default(b" 42 ", 7), 42);
    assert_eq!(parse_with_default(b"abc", 7), 7);
    assert_eq!(parse_with_default(b"", 7), 7);
    assert_eq!(parse_with_default(b"18446744073709551615", 7), u64::MAX);
    assert_eq!(parse_with_default(b"18446744073709551616", 7), 7);
}
