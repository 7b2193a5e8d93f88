use index_rs::local::{
    collect_disk_info, collect_memory_info, collect_process_info, process_status_label,
    static_info_from, DiskSample, NetIfaceSample, NetRateTracker, ProcessSample,
};
use index_rs::models::ProcessStateKind;

fn iface(name: &str, rx: u64, tx: u64) -> NetIfaceSample {
    NetIfaceSample { name: name.to_string(), total_rx_bytes: rx, total_tx_bytes: tx }
}

#[test]
fn first_network_cycle_reports_zero_rate() {
    let mut tracker = NetRateTracker::new();
    let info = tracker.observe(vec![iface("eth0", 5_000_000, 9_000_000)]);
    assert_eq!(info.rx_delta_bytes, 0);
    assert_eq!(info.tx_delta_bytes, 0);
    assert_eq!(info.rx_delta_bytes as f64 / 1024.0, 0.0);
    assert_eq!(info.total_rx_bytes, 5_000_000);
    assert_eq!(info.total_tx_bytes, 9_000_000);
    assert_eq!(info.interfaces.len(), 1);
    assert_eq!(info.interfaces[0].name, "eth0");
}

#[test]
fn second_network_cycle_reports_counter_delta() {
    let mut tracker = NetRateTracker::new();
    let _ = tracker.observe(vec![iface("eth0", 1_000, 2_000)]);
    let info = tracker.observe(vec![iface("eth0", 3_048, 2_100)]);
    assert_eq!(info.rx_delta_bytes, 2_048);
    assert_eq!(info.tx_delta_bytes, 100);
    // the rate in kilobytes per second over a one-second interval
    assert_eq!(info.rx_delta_bytes as f64 / 1024.0, 2.0);
}

#[test]
fn network_counter_reset_saturates_at_zero() {
    let mut tracker = NetRateTracker::new();
    let _ = tracker.observe(vec![iface("eth0", 10_000, 10_000)]);
    let info = tracker.observe(vec![iface("eth0", 4_000, 20_000)]);
    assert_eq!(info.rx_delta_bytes, 0);
    assert_eq!(info.tx_delta_bytes, 10_000);
}

#[test]
fn network_totals_sum_over_interfaces() {
    let mut tracker = NetRateTracker::new();
    let info = tracker.observe(vec![iface("eth0", 100, 10), iface("wlan0", 200, 20)]);
    assert_eq!(info.total_rx_bytes, 300);
    assert_eq!(info.total_tx_bytes, 30);
}

#[test]
fn memory_percentages_are_exact_hundredths() {
    let m = collect_memory_info(
        8_589_934_592,
        4_294_967_296,
        4_294_967_296,
        2_147_483_648,
        536_870_912,
        1_610_612_736,
    );
    assert_eq!(m.total_kb, 8_388_608);
    assert_eq!(m.used_kb, 4_194_304);
    assert_eq!(m.used_percent_centi, 5_000);
    assert_eq!(m.swap_used_percent_centi, 2_500);
}

#[test]
fn swap_percentage_is_zero_without_swap() {
    let m = collect_memory_info(1_000, 500, 500, 0, 0, 0);
    assert_eq!(m.swap_used_percent_centi, 0);
}

#[test]
fn disks_with_zero_capacity_are_excluded() {
    let disks = collect_disk_info(vec![
        DiskSample {
            name: "sda1".to_string(),
            mount_point: "/".to_string(),
            file_system: "ext4".to_string(),
            total_bytes: 1_000_000,
            available_bytes: 250_000,
        },
        DiskSample {
            name: "loop0".to_string(),
            mount_point: "/snap".to_string(),
            file_system: "squashfs".to_string(),
            total_bytes: 0,
            available_bytes: 0,
        },
    ]);
    assert_eq!(disks.len(), 1);
    assert_eq!(disks[0].name, "sda1");
    assert_eq!(disks[0].used_bytes, 750_000);
    assert_eq!(disks[0].free_bytes, 250_000);
    assert_eq!(disks[0].used_percent_centi, 7_500);
}

fn proc(name: &str, pid: u32, cpu_centi: u32, mem: u64) -> ProcessSample {
    ProcessSample {
        pid,
        name: name.to_string(),
        cpu_percent_centi: cpu_centi,
        memory_bytes: mem,
        status: ProcessStateKind::Run,
        user: Some("user".to_string()),
        command: format!("/bin/{}", name),
        start_time: 1_700_000_000,
    }
}

#[test]
fn processes_are_sorted_descending_and_truncated() {
    let ps = collect_process_info(
        vec![proc("a", 1, 500, 0), proc("b", 2, 1_500, 0), proc("c", 3, 1_000, 0)],
        2,
        1_073_741_824,
    );
    assert_eq!(ps.len(), 2);
    assert_eq!(ps[0].name, "b");
    assert_eq!(ps[1].name, "c");
}

#[test]
fn process_sort_is_stable_for_equal_shares() {
    let ps = collect_process_info(
        vec![proc("first", 1, 700, 0), proc("second", 2, 700, 0)],
        10,
        1_073_741_824,
    );
    assert_eq!(ps[0].name, "first");
    assert_eq!(ps[1].name, "second");
}

#[test]
fn process_memory_percent_uses_total_memory() {
    let ps = collect_process_info(
        vec![proc("a", 1, 100, 536_870_912)],
        10,
        1_073_741_824,
    );
    assert_eq!(ps[0].memory_percent_centi, 5_000);
    assert_eq!(ps[0].memory_bytes, 536_870_912);
    assert_eq!(ps[0].start_time, Some(1_700_000_000));
    assert_eq!(ps[0].user.as_deref(), Some("user"));
}

#[test]
fn process_status_labels_match_the_os_states() {
    assert_eq!(process_status_label(ProcessStateKind::Run), "Running");
    assert_eq!(process_status_label(ProcessStateKind::Sleep), "Sleeping");
    assert_eq!(process_status_label(ProcessStateKind::Idle), "Idle");
    assert_eq!(process_status_label(ProcessStateKind::Zombie), "Zombie");
    assert_eq!(process_status_label(ProcessStateKind::Other), "Unknown");
}

#[test]
fn static_info_defaults_missing_fields_to_unknown() {
    let info = static_info_from(
        Some("Linux".to_string()),
        None,
        Some("host1".to_string()),
        8,
        None,
        17_179_869_184,
    );
    assert_eq!(info.os_name, "Linux");
    assert_eq!(info.kernel_version, "Unknown");
    assert_eq!(info.hostname, "host1");
    assert_eq!(info.cpu_cores, 8);
    assert_eq!(info.cpu_brand, "Unknown");
    assert_eq!(info.total_memory_bytes, 17_179_869_184);
}
