use index_rs::gpu::parse_nvidia_smi_output;

#[test]
fn gpu_line_with_exactly_seven_fields_has_unknown_optionals() {
    let out = b"NVIDIA GeForce RTX 3080, 0, 10240, 2048, 8192, 35, 60\n";
    let gpus = parse_nvidia_smi_output(out).expect("one record");
    assert_eq!(gpus.len(), 1);
    let g = &gpus[0];
    assert_eq!(g.name, b"NVIDIA GeForce RTX 3080".to_vec());
    assert_eq!(g.index, 0);
    assert_eq!(g.memory_total_mb, 10240);
    assert_eq!(g.memory_used_mb, 2048);
    assert_eq!(g.memory_free_mb, 8192);
    assert_eq!(g.utilization_percent, 35);
    assert_eq!(g.temperature_celsius, 60);
    assert_eq!(g.power_draw_milli_w, None);
    assert_eq!(g.power_limit_milli_w, None);
    assert_eq!(g.fan_speed_percent, None);
    assert_eq!(g.graphics_clock_mhz, None);
    assert_eq!(g.memory_clock_mhz, None);
}

#[test]
fn gpu_line_with_fewer_than_seven_fields_yields_nothing() {
    let out = b"NVIDIA GeForce RTX 3080, 0, 10240, 2048, 8192, 35\n";
    assert!(parse_nvidia_smi_output(out).is_none());
}

#[test]
fn gpu_na_sentinel_leaves_power_draw_unknown() {
    let out = b"RTX, 1, 8192, 1024, 7168, 10, 45, [N/A], 250.00, 80, 1800, 9000\n";
    let gpus = parse_nvidia_smi_output(out).expect("one record");
    assert_eq!(gpus.len(), 1);
    let g = &gpus[0];
    assert_eq!(g.power_draw_milli_w, None);
    assert_eq!(g.power_limit_milli_w, Some(250_000));
    assert_eq!(g.fan_speed_percent, Some(80));
    assert_eq!(g.graphics_clock_mhz, Some(1800));
    assert_eq!(g.memory_clock_mhz, Some(9000));
}

#[test]
fn gpu_unparseable_mandatory_field_drops_the_line() {
    let out = b"RTX, x, 8192, 1024, 7168, 10, 45\nRTX2, 1, 8192, 1024, 7168, 10, 45\n";
    let gpus = parse_nvidia_smi_output(out).expect("one record");
    assert_eq!(gpus.len(), 1);
    assert_eq!(gpus[0].name, b"RTX2".to_vec());
}

#[test]
fn gpu_empty_output_yields_nothing() {
    assert!(parse_nvidia_smi_output(b"").is_none());
    assert!(parse_nvidia_smi_output(b"\n\n").is_none());
}

#[test]
fn gpu_power_draw_parses_in_milliwatts() {
    let out = b"RTX, 0, 8192, 1024, 7168, 10, 45, 125.5, 250, 50, 1500, 7000\n";
    let gpus = parse_nvidia_smi_output(out).expect("one record");
    assert_eq!(gpus[0].power_draw_milli_w, Some(125_500));
    assert_eq!(gpus[0].power_limit_milli_w, Some(250_000));
}
