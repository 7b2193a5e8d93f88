use index_rs::docker::{
    parse_docker_containers, parse_memory_usage, parse_network_io, parse_port_mappings,
    parse_size_to_mb,
};

#[test]
fn size_strings_convert_to_megabytes() {
    // values in millionths of a megabyte
    assert_eq!(parse_size_to_mb(b"1.5GiB") as f64 / 1e6, 1536.0);
    assert_eq!(parse_size_to_mb(b"512MiB") as f64 / 1e6, 512.0);
    assert_eq!(parse_size_to_mb(b"2048KiB") as f64 / 1e6, 2.0);
    assert_eq!(parse_size_to_mb(b"10") as f64 / 1e6, 10.0);
}

#[test]
fn size_strings_handle_decimal_suffixes_and_bytes() {
    assert_eq!(parse_size_to_mb(b"2GB") as f64 / 1e6, 2048.0);
    assert_eq!(parse_size_to_mb(b"3MB") as f64 / 1e6, 3.0);
    assert_eq!(parse_size_to_mb(b"1024kB") as f64 / 1e6, 1.0);
    // 1048576 bytes are exactly one megabyte
    assert_eq!(parse_size_to_mb(b"1048576B") as f64 / 1e6, 1.0);
    assert_eq!(parse_size_to_mb(b"garbage"), 0);
    assert_eq!(parse_size_to_mb(b"  7.25MiB "), 7_250_000);
}

#[test]
fn memory_usage_takes_the_used_half_of_the_pair() {
    let (used, limit) = parse_memory_usage(b"512MiB / 1.5GiB", b"1.5GiB");
    assert_eq!(used, 512_000_000);
    assert_eq!(limit, 1_536_000_000);
}

#[test]
fn network_io_splits_receive_and_transmit() {
    let (rx, tx) = parse_network_io(b"1.5GiB / 512MiB");
    assert_eq!(rx, 1_536_000_000);
    assert_eq!(tx, 512_000_000);
    let (rx2, tx2) = parse_network_io(b"10MB");
    assert_eq!(rx2, 10_000_000);
    assert_eq!(tx2, 0);
}

#[test]
fn port_mappings_parse_bound_and_bare_forms() {
    let maps = parse_port_mappings(b"0.0.0.0:8080->80/tcp, 443/tcp");
    assert_eq!(maps.len(), 2);
    assert_eq!(maps[0].container_port, 80);
    assert_eq!(maps[0].host_port, Some(8080));
    assert_eq!(maps[0].protocol, b"tcp".to_vec());
    assert_eq!(maps[0].host_ip, Some(b"0.0.0.0".to_vec()));
    assert_eq!(maps[1].container_port, 443);
    assert_eq!(maps[1].host_port, None);
    assert_eq!(maps[1].host_ip, None);
}

#[test]
fn port_mappings_skip_pieces_without_protocol() {
    let maps = parse_port_mappings(b"");
    assert!(maps.is_empty());
    let maps2 = parse_port_mappings(b"noproto, 80/tcp");
    assert_eq!(maps2.len(), 1);
    assert_eq!(maps2[0].container_port, 80);
}

#[test]
fn containers_join_stats_by_name() {
    let containers = "{\"ID\":\"abc\",\"Names\":\"web\",\"Image\":\"nginx:latest\",\
\"Status\":\"Up 2 hours\",\"State\":\"running\",\
\"CreatedAt\":\"2024-01-15T10:30:00+00:00\",\
\"Ports\":\"0.0.0.0:8080->80/tcp\"}\n";
    let stats = "{\"Container\":\"web\",\"CPUPerc\":\"12.34%\",\
\"MemUsage\":\"512MiB / 1.5GiB\",\"MemLimit\":\"1.5GiB\",\
\"NetIO\":\"1.5GiB / 512MiB\"}\n";
    let cs = parse_docker_containers(containers.as_bytes(), stats.as_bytes()).unwrap();
    assert_eq!(cs.len(), 1);
    let c = &cs[0];
    assert_eq!(c.id, b"abc".to_vec());
    assert_eq!(c.name, b"web".to_vec());
    assert_eq!(c.image, b"nginx:latest".to_vec());
    assert_eq!(c.status, b"Up 2 hours".to_vec());
    assert!(c.state.running);
    assert!(!c.state.paused);
    assert_eq!(c.created, 1_705_314_600);
    assert_eq!(c.ports.len(), 1);
    assert_eq!(c.cpu_percent_centi, 1234);
    assert_eq!(c.memory_usage_micro_mb, 512_000_000);
    assert_eq!(c.memory_limit_micro_mb, 1_536_000_000);
    // 512 of 1536 megabytes is 33.33 percent
    assert_eq!(c.memory_percent_centi, 3333);
    assert_eq!(c.network_rx_micro_mb, 1_536_000_000);
    assert_eq!(c.network_tx_micro_mb, 512_000_000);
}

#[test]
fn container_without_stats_row_keeps_zero_usage() {
    let containers = "{\"ID\":\"x\",\"Names\":\"db\",\"Image\":\"postgres\",\
\"Status\":\"Exited\",\"State\":\"dead\",\"CreatedAt\":\"not a date\"}\n";
    let cs = parse_docker_containers(containers.as_bytes(), b"").unwrap();
    assert_eq!(cs.len(), 1);
    let c = &cs[0];
    assert!(!c.state.running);
    assert!(c.state.dead);
    assert_eq!(c.created, 0);
    assert_eq!(c.cpu_percent_centi, 0);
    assert_eq!(c.memory_usage_micro_mb, 0);
    assert_eq!(c.memory_percent_centi, 0);
    assert!(c.ports.is_empty());
}

#[test]
fn malformed_lines_are_skipped_not_fatal() {
    let containers = "not json\n\n{\"ID\":\"a\",\"Names\":\"n\",\"Image\":\"i\",\
\"Status\":\"s\",\"State\":\"paused\",\"CreatedAt\":\"x\"}\n";
    let stats = "also not json\n{\"Container\":\"other\"}\n";
    let cs = parse_docker_containers(containers.as_bytes(), stats.as_bytes()).unwrap();
    assert_eq!(cs.len(), 1);
    assert!(cs[0].state.paused);
}

#[test]
fn stats_with_zero_limit_report_zero_percent() {
    let containers = "{\"ID\":\"a\",\"Names\":\"n\",\"Image\":\"i\",\
\"Status\":\"s\",\"State\":\"running\",\"CreatedAt\":\"x\"}\n";
    let stats = "{\"Container\":\"n\",\"CPUPerc\":\"0.00%\",\
\"MemUsage\":\"100MiB / 0B\",\"MemLimit\":\"0B\",\"NetIO\":\"0B / 0B\"}\n";
    let cs = parse_docker_containers(containers.as_bytes(), stats.as_bytes()).unwrap();
    assert_eq!(cs[0].memory_limit_micro_mb, 0);
    assert_eq!(cs[0].memory_percent_centi, 0);
}
