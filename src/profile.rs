use vstd::prelude::*;
use crate::text::{occurs_at, chars_of, contains_at};

verus! {

/// An IPv6 address of an interface: its text form and its first 16-bit segment.
#[derive(Clone, Debug)]
pub struct Ipv6Entry {
    pub text: String,
    pub leading_segment: u16,
}

/// A network interface as discovery reports it: its name and the text forms
/// of its IPv4 addresses and its IPv6 addresses, in the order reported.
#[derive(Clone, Debug)]
pub struct InterfaceInfo {
    pub name: String,
    pub ipv4: Vec<String>,
    pub ipv6: Vec<Ipv6Entry>,
}

#[derive(Clone, Debug, PartialEq, Eq)]
pub struct Config {
    pub role: String,
    pub log: LogConfig,
    pub socks5: Vec<Socks5Config>,
    pub network: NetworkConfig,
    pub server: ServerConfig,
    pub transport: TransportConfig,
}

#[derive(Clone, Debug, PartialEq, Eq)]
pub struct LogConfig {
    pub level: String,
}

#[derive(Clone, Debug, PartialEq, Eq)]
pub struct Socks5Config {
    pub listen: String,
    pub username: String,
    pub password: String,
}

/// The host's network identity: the record that discovery and resolution fill in.
#[derive(Clone, Debug, PartialEq, Eq)]
pub struct NetworkConfig {
    pub interface: String,
    pub ipv4: Ipv4Config,
    pub ipv6: Ipv6Config,
}

#[derive(Clone, Debug, PartialEq, Eq)]
pub struct Ipv4Config {
    pub addr: String,
    pub router_mac: String,
}

#[derive(Clone, Debug, PartialEq, Eq)]
pub struct Ipv6Config {
    pub addr: String,
    pub router_mac: String,
}

#[derive(Clone, Debug, PartialEq, Eq)]
pub struct ServerConfig {
    pub addr: String,
}

#[derive(Clone, Debug, PartialEq, Eq)]
pub struct TransportConfig {
    pub protocol: String,
    pub conn: u32,
    pub kcp: KcpConfig,
}

#[derive(Clone, Debug, PartialEq, Eq)]
pub struct KcpConfig {
    pub mode: String,
    pub key: String,
}

/// `s` starts with `p`.
pub open spec fn has_prefix(s: Seq<char>, p: Seq<char>) -> bool {
    p.len() <= s.len() && s.subrange(0, p.len() as int) == p
}

/// An interface worth describing: wired (`en…`, `eth…`) or wireless
/// (`wlan…`) by its name, and with an IPv4 address.
pub open spec fn is_preferred(name: Seq<char>, ipv4_count: nat) -> bool {
    (has_prefix(name, seq!['e', 'n']) || has_prefix(name, seq!['e', 't', 'h'])
        || has_prefix(name, seq!['w', 'l', 'a', 'n'])) && ipv4_count > 0
}

pub open spec fn preferred_at(ifaces: Seq<InterfaceInfo>, i: int) -> bool {
    is_preferred(ifaces[i].name@, ifaces[i].ipv4.len() as nat)
}

fn starts_with(s: &Vec<char>, p: &Vec<char>) -> (r: bool)
    ensures
        r == has_prefix(s@, p@),
{
    let r = contains_at(s, p, 0);
    assert(r == occurs_at(s@, p@, 0));
    r
}

/// Index of the first preferred interface of `ifaces`, if any.
pub fn preferred_interface(ifaces: &Vec<InterfaceInfo>) -> (r: Option<usize>)
    ensures
        match r {
            Some(i) => i < ifaces.len() && preferred_at(ifaces@, i as int) && forall|j: int|
                0 <= j < i ==> !preferred_at(ifaces@, j),
            None => forall|j: int| 0 <= j < ifaces.len() ==> !preferred_at(ifaces@, j),
        },
{
    let en: Vec<char> = vec!['e', 'n'];
    let eth: Vec<char> = vec!['e', 't', 'h'];
    let wlan: Vec<char> = vec!['w', 'l', 'a', 'n'];
    assert(en@ =~= seq!['e', 'n']);
    assert(eth@ =~= seq!['e', 't', 'h']);
    assert(wlan@ =~= seq!['w', 'l', 'a', 'n']);
    let mut i: usize = 0;
    while i < ifaces.len()
        invariant
            i <= ifaces.len(),
            en@ == seq!['e', 'n'],
            eth@ == seq!['e', 't', 'h'],
            wlan@ == seq!['w', 'l', 'a', 'n'],
            forall|j: int| 0 <= j < i ==> !preferred_at(ifaces@, j),
        decreases ifaces.len() - i,
    {
        let name = chars_of(ifaces[i].name.as_str());
        if (starts_with(&name, &en) || starts_with(&name, &eth) || starts_with(&name, &wlan))
            && ifaces[i].ipv4.len() > 0 {
            return Some(i);
        }
        i = i + 1;
    }
    None
}

/// The IPv4 socket address: the first IPv4 address with port 0, else `127.0.0.1:0`.
pub open spec fn ipv4_socket_text(ipv4: Seq<String>) -> Seq<char> {
    if ipv4.len() > 0 {
        ipv4[0]@ + ":0"@
    } else {
        "127.0.0.1:0"@
    }
}

pub fn ipv4_socket_addr(iface: &InterfaceInfo) -> (r: String)
    ensures
        r@ == ipv4_socket_text(iface.ipv4@),
        iface.ipv4.len() == 0 ==> r@ == "127.0.0.1:0"@,
{
    if iface.ipv4.len() > 0 {
        let mut s = iface.ipv4[0].clone();
        s.append(":0");
        s
    } else {
        String::from_str("127.0.0.1:0")
    }
}

/// Link-local unicast: in `fe80::/10`.
pub open spec fn is_link_local(leading_segment: u16) -> bool {
    leading_segment & 0xffc0 == 0xfe80
}

/// The first link-local address among `ipv6` is at `i`.
pub open spec fn first_link_local_at(ipv6: Seq<Ipv6Entry>, i: int) -> bool {
    &&& 0 <= i < ipv6.len()
    &&& is_link_local(ipv6[i].leading_segment)
    &&& forall|j: int| 0 <= j < i ==> !is_link_local(#[trigger] ipv6[j].leading_segment)
}

/// The IPv6 socket address: the first link-local address in brackets with
/// port 0, else `[::1]:0`.
pub open spec fn ipv6_socket_text(ipv6: Seq<Ipv6Entry>) -> Seq<char> {
    if exists|i: int| first_link_local_at(ipv6, i) {
        "["@ + ipv6[choose|i: int| first_link_local_at(ipv6, i)].text@ + "]:0"@
    } else {
        "[::1]:0"@
    }
}

pub fn ipv6_socket_addr(iface: &InterfaceInfo) -> (r: String)
    ensures
        r@ == ipv6_socket_text(iface.ipv6@),
        (forall|j: int| 0 <= j < iface.ipv6.len() ==> !is_link_local(#[trigger] iface.ipv6@[j].leading_segment))
            ==> r@ == "[::1]:0"@,
{
    let mut i: usize = 0;
    while i < iface.ipv6.len()
        invariant
            i <= iface.ipv6.len(),
            forall|j: int| 0 <= j < i ==> !is_link_local(#[trigger] iface.ipv6@[j].leading_segment),
        decreases iface.ipv6.len() - i,
    {
        let seg: u16 = iface.ipv6[i].leading_segment;
        if seg & 0xffc0 == 0xfe80 {
            proof {
                assert(first_link_local_at(iface.ipv6@, i as int));
                let k = choose|k: int| first_link_local_at(iface.ipv6@, k);
                if k < i {
                    assert(!is_link_local(iface.ipv6@[k].leading_segment));
                } else if i < k {
                    assert(!is_link_local(iface.ipv6@[i as int].leading_segment));
                }
            }
            let mut s = String::from_str("[");
            s.append(iface.ipv6[i].text.as_str());
            s.append("]:0");
            return s;
        }
        i = i + 1;
    }
    proof {
        if exists|k: int| first_link_local_at(iface.ipv6@, k) {
            let k = choose|k: int| first_link_local_at(iface.ipv6@, k);
            assert(is_link_local(iface.ipv6@[k].leading_segment));
        }
    }
    String::from_str("[::1]:0")
}

/// The value discovery gives for an unknown gateway address.
pub open spec fn zero_mac() -> Seq<char> {
    "00:00:00:00:00:00"@
}

/// The IPv6 gateway address: the one discovery gave, unless it is empty or
/// all zeros; then the resolved IPv4 gateway address.
pub open spec fn ipv6_router_text(discovered: Seq<char>, ipv4_mac: Seq<char>) -> Seq<char> {
    if discovered != zero_mac() && discovered.len() > 0 {
        discovered
    } else {
        ipv4_mac
    }
}

pub fn ipv6_router_mac(discovered: String, ipv4_mac: &String) -> (r: String)
    ensures
        r@ == ipv6_router_text(discovered@, ipv4_mac@),
        discovered@ == zero_mac() || discovered@.len() == 0 ==> r@ == ipv4_mac@,
        discovered@ != zero_mac() && discovered@.len() > 0 ==> r@ == discovered@,
{
    let zero = String::from_str("00:00:00:00:00:00");
    if !(discovered == zero) && discovered.as_str().unicode_len() > 0 {
        discovered
    } else {
        ipv4_mac.clone()
    }
}

/// Assembles the network record of `iface`: its name, its socket addresses,
/// the resolved IPv4 gateway address, and the IPv6 gateway address chosen
/// from `discovered_mac` and `ipv4_mac`.
pub fn network_profile(iface: &InterfaceInfo, ipv4_mac: String, discovered_mac: String) -> (r:
    NetworkConfig)
    ensures
        r.interface@ == iface.name@,
        r.ipv4.addr@ == ipv4_socket_text(iface.ipv4@),
        r.ipv4.router_mac@ == ipv4_mac@,
        r.ipv6.addr@ == ipv6_socket_text(iface.ipv6@),
        r.ipv6.router_mac@ == ipv6_router_text(discovered_mac@, ipv4_mac@),
{
    let v6_mac = ipv6_router_mac(discovered_mac, &ipv4_mac);
    NetworkConfig {
        interface: iface.name.clone(),
        ipv4: Ipv4Config { addr: ipv4_socket_addr(iface), router_mac: ipv4_mac },
        ipv6: Ipv6Config { addr: ipv6_socket_addr(iface), router_mac: v6_mac },
    }
}

/// The configuration made of the static parts of `defaults` and the
/// discovered `network`.
pub fn client_config(defaults: Config, network: NetworkConfig) -> (r: Config)
    ensures
        r.network == network,
        r.role == defaults.role,
        r.log == defaults.log,
        r.socks5 == defaults.socks5,
        r.server == defaults.server,
        r.transport == defaults.transport,
{
    Config { network, ..defaults }
}

} // verus!
