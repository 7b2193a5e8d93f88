use index_rs::sensors::parse_sensors_output;

#[test]
fn sensors_take_maximum_temperature_across_lines() {
    let out = "coretemp-isa-0000\n\
Package id 0:  +45.0\u{b0}C  (high = +80.0\u{b0}C, crit = +100.0\u{b0}C)\n\
Core 0:        +47.5\u{b0}C  (high = +80.0\u{b0}C)\n\
Core 1:        +44.0\u{b0}C  (high = +80.0\u{b0}C)\n";
    let (temp, power) = parse_sensors_output(out.as_bytes());
    assert_eq!(temp, Some(47_500));
    assert_eq!(power, None);
}

#[test]
fn sensors_last_power_line_wins() {
    let out = "PPT: 13.00 W\npower1: 10.50 W\n";
    let (temp, power) = parse_sensors_output(out.as_bytes());
    assert_eq!(temp, None);
    assert_eq!(power, Some(10_500));
}

#[test]
fn sensors_alarm_lines_are_ignored_for_power() {
    let out = "power1: 99.00 W ALARM\nPPT: 13.00 W\n";
    let (_, power) = parse_sensors_output(out.as_bytes());
    assert_eq!(power, Some(13_000));
}

#[test]
fn sensors_amd_markers_are_recognised() {
    let out = "k10temp-pci-00c3\nTctl:         +61.2\u{b0}C\nTdie:         +58.0\u{b0}C\n";
    let (temp, _) = parse_sensors_output(out.as_bytes());
    assert_eq!(temp, Some(61_200));
}

#[test]
fn sensors_empty_or_unrelated_output_yields_nothing() {
    assert_eq!(parse_sensors_output(b""), (None, None));
    let out = "fan1: 1200 RPM\nvoltage: 1.2 V\n";
    assert_eq!(parse_sensors_output(out.as_bytes()), (None, None));
}

#[test]
fn sensors_temperature_needs_degree_suffix() {
    let out = "Core 0: +47.5\n";
    assert_eq!(parse_sensors_output(out.as_bytes()), (None, None));
}
