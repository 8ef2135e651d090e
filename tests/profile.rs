use netprobe::{
    client_config, ipv4_socket_addr, ipv6_router_mac, ipv6_socket_addr, network_profile,
    preferred_interface, resolve_gateway_mac, Config, HostFamily, InterfaceInfo, Ipv4Config,
    Ipv6Config, Ipv6Entry, KcpConfig, LogConfig, NetworkConfig, ServerConfig, Socks5Config,
    TransportConfig,
};

fn iface(name: &str, ipv4: &[&str], ipv6: &[(&str, u16)]) -> InterfaceInfo {
    InterfaceInfo {
        name: name.to_string(),
        ipv4: ipv4.iter().map(|a| a.to_string()).collect(),
        ipv6: ipv6
            .iter()
            .map(|(t, s)| Ipv6Entry { text: t.to_string(), leading_segment: *s })
            .collect(),
    }
}

#[test]
fn end_to_end_profile() {
    let en1 = iface("en1", &["192.168.1.91"], &[("fe80::1", 0xfe80)]);
    let out = "? (192.168.1.1) at d4:01:c3:a6:36:71 on en1 ifscope [ethernet]\n";
    let v4 = resolve_gateway_mac(HostFamily::Bsd, "192.168.1.1", Some(out));
    let net = network_profile(&en1, v4, String::new());
    assert_eq!(net.interface, "en1");
    assert_eq!(net.ipv4.addr, "192.168.1.91:0");
    assert_eq!(net.ipv6.addr, "[fe80::1]:0");
    assert_eq!(net.ipv4.router_mac, "d4:01:c3:a6:36:71");
    assert_eq!(net.ipv6.router_mac, "d4:01:c3:a6:36:71");
}

#[test]
fn no_link_local_gives_loopback_v6() {
    let e = iface("en0", &["10.0.0.5"], &[("2001:db8::5", 0x2001)]);
    assert_eq!(ipv6_socket_addr(&e), "[::1]:0");
    let e = iface("en0", &["10.0.0.5"], &[]);
    assert_eq!(ipv6_socket_addr(&e), "[::1]:0");
}

#[test]
fn first_link_local_is_taken() {
    let e = iface("en0", &[], &[("2001:db8::5", 0x2001), ("fe80::aa", 0xfe80), ("febf::1", 0xfebf)]);
    assert_eq!(ipv6_socket_addr(&e), "[fe80::aa]:0");
    let e = iface("en0", &[], &[("fec0::1", 0xfec0), ("febf::1", 0xfebf)]);
    assert_eq!(ipv6_socket_addr(&e), "[febf::1]:0");
}

#[test]
fn no_ipv4_gives_loopback_v4() {
    let e = iface("en0", &[], &[]);
    assert_eq!(ipv4_socket_addr(&e), "127.0.0.1:0");
    let e = iface("en0", &["10.0.0.5", "10.0.0.6"], &[]);
    assert_eq!(ipv4_socket_addr(&e), "10.0.0.5:0");
}

#[test]
fn ipv6_mac_rule() {
    let v4 = "d4:01:c3:a6:36:71".to_string();
    assert_eq!(ipv6_router_mac(String::new(), &v4), v4);
    assert_eq!(ipv6_router_mac("00:00:00:00:00:00".to_string(), &v4), v4);
    assert_eq!(ipv6_router_mac("30:a2:20:fe:46:18".to_string(), &v4), "30:a2:20:fe:46:18");
}

#[test]
fn discovered_mac_goes_to_ipv6_only() {
    let e = iface("eth0", &["10.1.1.2"], &[]);
    let net = network_profile(&e, "aa:bb:cc:dd:ee:ff".to_string(), "30:a2:20:fe:46:18".to_string());
    assert_eq!(net.ipv4.router_mac, "aa:bb:cc:dd:ee:ff");
    assert_eq!(net.ipv6.router_mac, "30:a2:20:fe:46:18");
    assert_eq!(net.ipv4.addr, "10.1.1.2:0");
    assert_eq!(net.ipv6.addr, "[::1]:0");
}

#[test]
fn preferred_interface_by_name_and_address() {
    let list = vec![
        iface("lo0", &["127.0.0.1"], &[]),
        iface("en0", &[], &[]),
        iface("utun3", &["10.8.0.2"], &[]),
        iface("wlan0", &["192.168.0.4"], &[]),
        iface("eth1", &["10.0.0.2"], &[]),
    ];
    assert_eq!(preferred_interface(&list), Some(3));
    let list = vec![iface("lo0", &["127.0.0.1"], &[]), iface("e", &["10.0.0.1"], &[])];
    assert_eq!(preferred_interface(&list), None);
    assert_eq!(preferred_interface(&vec![]), None);
}

fn defaults() -> Config {
    Config {
        role: "client".to_string(),
        log: LogConfig { level: "info".to_string() },
        socks5: vec![Socks5Config {
            listen: "127.0.0.1:1080".to_string(),
            username: "".to_string(),
            password: "".to_string(),
        }],
        network: NetworkConfig {
            interface: String::new(),
            ipv4: Ipv4Config { addr: String::new(), router_mac: String::new() },
            ipv6: Ipv6Config { addr: String::new(), router_mac: String::new() },
        },
        server: ServerConfig { addr: "1.2.3.4:8443".to_string() },
        transport: TransportConfig {
            protocol: "kcp".to_string(),
            conn: 1,
            kcp: KcpConfig { mode: "fast".to_string(), key: "secret".to_string() },
        },
    }
}

#[test]
fn config_keeps_defaults_and_takes_network() {
    let net = NetworkConfig {
        interface: "en1".to_string(),
        ipv4: Ipv4Config {
            addr: "192.168.1.91:0".to_string(),
            router_mac: "d4:01:c3:a6:36:71".to_string(),
        },
        ipv6: Ipv6Config {
            addr: "[fe80::1]:0".to_string(),
            router_mac: "30:a2:20:fe:46:18".to_string(),
        },
    };
    let c = client_config(defaults(), net.clone());
    assert_eq!(c.network, net);
    assert_eq!(c.role, "client");
    assert_eq!(c.log.level, "info");
    assert_eq!(c.socks5, defaults().socks5);
    assert_eq!(c.server.addr, "1.2.3.4:8443");
    assert_eq!(c.transport, defaults().transport);
}
