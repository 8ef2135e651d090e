use netprobe::{
    fallback_mac_string, mac_in_line, neighbor_command, normalize_mac, resolve_gateway_mac,
    scan_neighbor_output, HostFamily, MacStyle,
};

fn chars(s: &str) -> Vec<char> {
    s.chars().collect()
}

#[test]
fn fallback_is_the_sentinel() {
    assert_eq!(fallback_mac_string(), "aa:bb:cc:dd:ee:ff");
}

#[test]
fn colon_token_found_in_bsd_line() {
    let line = "? (192.168.1.1) at d4:1:c3:a6:36:71 on en1 ifscope [ethernet]";
    assert_eq!(mac_in_line(line, MacStyle::Colon), Some("d4:1:c3:a6:36:71".to_string()));
}

#[test]
fn short_colon_token_is_skipped() {
    // "12:34" holds a colon but is shorter than eleven bytes.
    let line = "host 12:34 then aa:bb:cc:dd:ee:01";
    assert_eq!(mac_in_line(line, MacStyle::Colon), Some("aa:bb:cc:dd:ee:01".to_string()));
    assert_eq!(mac_in_line("only 12:34 here", MacStyle::Colon), None);
}

#[test]
fn token_length_counts_bytes() {
    // Nine characters, twelve bytes: long enough.
    assert_eq!(mac_in_line("x ab:cd:\u{e9}\u{e9}\u{e9} y", MacStyle::Colon), Some("ab:cd:\u{e9}\u{e9}\u{e9}".to_string()));
    // Eight characters, ten bytes: too short.
    assert_eq!(mac_in_line("x ab:cd:\u{e9}\u{e9} y", MacStyle::Colon), None);
}

#[test]
fn hyphen_token_needs_seventeen_bytes() {
    assert_eq!(mac_in_line("a-b-c-d-e-f-g-h", MacStyle::Hyphen), None);
    assert_eq!(
        mac_in_line("  192.168.1.1    d4-01-c3-a6-36-71   dynamic", MacStyle::Hyphen),
        Some("d4-01-c3-a6-36-71".to_string())
    );
}

#[test]
fn bsd_table_picks_line_naming_the_ip() {
    let out = "? (192.168.1.7) at 11:22:33:44:55:66 on en0 ifscope [ethernet]\n\
               ? (192.168.1.1) at d4:01:c3:a6:36:71 on en0 ifscope [ethernet]\n";
    assert_eq!(
        scan_neighbor_output(HostFamily::Bsd, "192.168.1.1", out),
        Some("d4:01:c3:a6:36:71".to_string())
    );
}

#[test]
fn bsd_line_without_address_is_passed_over() {
    let out = "? (192.168.1.1) at (incomplete) on en0 ifscope [ethernet]\r\n\
               gw (192.168.1.1) at 0:1:2:3:4:5 on en0\r\n";
    assert_eq!(
        scan_neighbor_output(HostFamily::Bsd, "192.168.1.1", out),
        Some("0:1:2:3:4:5".to_string())
    );
}

#[test]
fn bsd_table_without_the_ip_gives_none() {
    let out = "? (10.0.0.2) at 11:22:33:44:55:66 on en0\n";
    assert_eq!(scan_neighbor_output(HostFamily::Bsd, "192.168.1.1", out), None);
    assert_eq!(scan_neighbor_output(HostFamily::Bsd, "192.168.1.1", ""), None);
}

#[test]
fn linux_takes_token_after_lladdr() {
    let out = "192.168.1.1 dev eth0 lladdr 00:11:22:33:44:55 REACHABLE\n";
    assert_eq!(
        scan_neighbor_output(HostFamily::Linux, "192.168.1.1", out),
        Some("00:11:22:33:44:55".to_string())
    );
}

#[test]
fn linux_reads_first_line_only() {
    let out = "192.168.1.1 dev eth0 FAILED\n192.168.1.1 dev eth1 lladdr 00:11:22:33:44:55 STALE\n";
    assert_eq!(scan_neighbor_output(HostFamily::Linux, "192.168.1.1", out), None);
}

#[test]
fn linux_lladdr_as_last_token_gives_none() {
    assert_eq!(scan_neighbor_output(HostFamily::Linux, "10.0.0.1", "10.0.0.1 dev eth0 lladdr   \n"), None);
    assert_eq!(scan_neighbor_output(HostFamily::Linux, "10.0.0.1", ""), None);
}

#[test]
fn windows_address_is_normalized() {
    let out = "\r\nInterface: 192.168.1.91 --- 0xb\r\n  Internet Address      Physical Address      Type\r\n  192.168.1.1           D4-01-C3-A6-36-71     dynamic\r\n";
    assert_eq!(
        scan_neighbor_output(HostFamily::Windows, "192.168.1.1", out),
        Some("d4:01:c3:a6:36:71".to_string())
    );
}

#[test]
fn other_hosts_read_nothing() {
    let out = "192.168.1.1 at d4:01:c3:a6:36:71";
    assert_eq!(scan_neighbor_output(HostFamily::Other, "192.168.1.1", out), None);
    assert_eq!(resolve_gateway_mac(HostFamily::Other, "192.168.1.1", Some(out)), "aa:bb:cc:dd:ee:ff");
}

#[test]
fn failed_query_falls_back() {
    assert_eq!(resolve_gateway_mac(HostFamily::Bsd, "192.168.1.1", None), "aa:bb:cc:dd:ee:ff");
    assert_eq!(resolve_gateway_mac(HostFamily::Linux, "192.168.1.1", None), "aa:bb:cc:dd:ee:ff");
    assert_eq!(resolve_gateway_mac(HostFamily::Windows, "192.168.1.1", None), "aa:bb:cc:dd:ee:ff");
}

#[test]
fn output_without_token_falls_back() {
    assert_eq!(
        resolve_gateway_mac(HostFamily::Bsd, "192.168.1.1", Some("no entry here\n")),
        "aa:bb:cc:dd:ee:ff"
    );
    assert_eq!(resolve_gateway_mac(HostFamily::Linux, "192.168.1.1", Some("")), "aa:bb:cc:dd:ee:ff");
}

#[test]
fn resolution_returns_found_address() {
    let out = "? (192.168.1.1) at d4:01:c3:a6:36:71 on en1 ifscope [ethernet]\n";
    assert_eq!(resolve_gateway_mac(HostFamily::Bsd, "192.168.1.1", Some(out)), "d4:01:c3:a6:36:71");
}

#[test]
fn hyphen_address_becomes_lowercase_colons() {
    assert_eq!(normalize_mac(&chars("D4-01-C3-A6-36-7F")), "d4:01:c3:a6:36:7f");
}

#[test]
fn colon_address_kept_up_to_case() {
    assert_eq!(normalize_mac(&chars("d4:01:c3:a6:36:71")), "d4:01:c3:a6:36:71");
    assert_eq!(normalize_mac(&chars("AA:BB:CC:DD:EE:0F")), "aa:bb:cc:dd:ee:0f");
}

#[test]
fn commands_per_host_family() {
    let c = neighbor_command(HostFamily::Bsd, "192.168.1.1", false).unwrap();
    assert_eq!(c.program, "arp");
    assert_eq!(c.args, vec!["-a".to_string()]);
    let c = neighbor_command(HostFamily::Bsd, "fe80::1", true).unwrap();
    assert_eq!(c.program, "ndp");
    assert_eq!(c.args, vec!["-a".to_string()]);
    let c = neighbor_command(HostFamily::Linux, "192.168.1.1", false).unwrap();
    assert_eq!(c.program, "ip");
    assert_eq!(c.args, vec!["neighbor".to_string(), "show".to_string(), "192.168.1.1".to_string()]);
    let c = neighbor_command(HostFamily::Windows, "192.168.1.1", false).unwrap();
    assert_eq!(c.program, "arp");
    assert_eq!(c.args, vec!["-a".to_string(), "192.168.1.1".to_string()]);
    assert!(neighbor_command(HostFamily::Other, "192.168.1.1", false).is_none());
}

#[test]
fn empty_gateway_ip_runs_nothing() {
    assert!(neighbor_command(HostFamily::Linux, "", false).is_none());
    assert!(neighbor_command(HostFamily::Bsd, "", false).is_none());
}
