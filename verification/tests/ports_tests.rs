use index_rs::ports::{need_port_fallback, parse_netstat_output, parse_ss_output};

#[test]
fn ss_row_parses_port_program_and_pid() {
    let out = b"tcp LISTEN 0 128 0.0.0.0:22 0.0.0.0:* users:((\"sshd\",pid=123,fd=3))\n";
    let ports = parse_ss_output(out);
    assert_eq!(ports.len(), 1);
    let p = &ports[0];
    assert_eq!(p.port, 22);
    assert_eq!(p.protocol, b"TCP".to_vec());
    assert_eq!(p.state, b"LISTEN".to_vec());
    assert_eq!(p.program, b"sshd".to_vec());
    assert_eq!(p.pid, Some(123));
    assert_eq!(p.address, b"0.0.0.0:22".to_vec());
}

#[test]
fn ss_row_without_process_section_defaults_to_unknown() {
    let out = b"udp UNCONN 0 0 127.0.0.1:323 0.0.0.0:* extra\n";
    let ports = parse_ss_output(out);
    assert_eq!(ports.len(), 1);
    assert_eq!(ports[0].program, b"Unknown".to_vec());
    assert_eq!(ports[0].pid, None);
    assert_eq!(ports[0].protocol, b"UDP".to_vec());
}

#[test]
fn ss_output_is_sorted_ascending_by_port() {
    let out = b"tcp LISTEN 0 128 0.0.0.0:443 0.0.0.0:* x\n\
tcp LISTEN 0 128 0.0.0.0:22 0.0.0.0:* x\n\
tcp LISTEN 0 128 0.0.0.0:80 0.0.0.0:* x\n";
    let ports = parse_ss_output(out);
    let nums: Vec<u16> = ports.iter().map(|p| p.port).collect();
    assert_eq!(nums, vec![22, 80, 443]);
}

#[test]
fn ss_short_rows_are_skipped() {
    let out = b"tcp LISTEN 0 128 0.0.0.0:22\n";
    assert!(parse_ss_output(out).is_empty());
}

#[test]
fn netstat_skips_two_header_lines() {
    let out = b"Active Internet connections (only servers)\n\
Proto Recv-Q Send-Q Local Address Foreign Address State PID/Program name\n\
tcp 0 0 0.0.0.0:80 0.0.0.0:* LISTEN 1234/nginx\n";
    let ports = parse_netstat_output(out);
    assert_eq!(ports.len(), 1);
    let p = &ports[0];
    assert_eq!(p.port, 80);
    assert_eq!(p.protocol, b"TCP".to_vec());
    assert_eq!(p.state, b"LISTEN".to_vec());
    assert_eq!(p.program, b"nginx".to_vec());
    assert_eq!(p.pid, Some(1234));
}

#[test]
fn netstat_udp_row_gets_fixed_state_and_dash_stays_unknown() {
    let out = b"h1\nh2\nudp 0 0 0.0.0.0:53 0.0.0.0:* x 999/named\n\
udp 0 0 0.0.0.0:68 0.0.0.0:* y -\n";
    let ports = parse_netstat_output(out);
    assert_eq!(ports.len(), 2);
    assert_eq!(ports[0].port, 53);
    assert_eq!(ports[0].protocol, b"UDP".to_vec());
    assert_eq!(ports[0].state, b"UNCONN".to_vec());
    assert_eq!(ports[0].program, b"named".to_vec());
    assert_eq!(ports[0].pid, Some(999));
    assert_eq!(ports[1].port, 68);
    assert_eq!(ports[1].program, b"Unknown".to_vec());
    assert_eq!(ports[1].pid, None);
}

#[test]
fn netstat_output_is_sorted_ascending_by_port() {
    let out = b"h1\nh2\n\
tcp 0 0 0.0.0.0:8080 0.0.0.0:* LISTEN 1/a\n\
tcp 0 0 0.0.0.0:21 0.0.0.0:* LISTEN 2/b\n";
    let ports = parse_netstat_output(out);
    let nums: Vec<u16> = ports.iter().map(|p| p.port).collect();
    assert_eq!(nums, vec![21, 8080]);
}

#[test]
fn fallback_runs_exactly_when_primary_has_no_rows() {
    let empty = parse_ss_output(b"");
    assert!(need_port_fallback(false, &empty));
    assert!(need_port_fallback(true, &empty));
    let some = parse_ss_output(b"tcp LISTEN 0 128 0.0.0.0:22 0.0.0.0:* x\n");
    assert_eq!(some.len(), 1);
    assert!(!need_port_fallback(false, &some));
}
