use vstd::prelude::*;
use crate::text::{chars_of, string_of};
use crate::mac::{MacStyle, mac_token, find_mac_token, normalized_mac, normalize_mac, is_mac_text, is_canonical_mac};
use crate::neighbor::{table_token, first_line_lladdr, find_table_token, find_first_line_lladdr};

verus! {

/// The kind of host, which decides the neighbor-table tool and how its output reads.
#[derive(Clone, Copy, Debug, PartialEq, Eq, Structural)]
pub enum HostFamily {
    /// BSD-style tools: `arp -a` and `ndp -a` list the whole table.
    Bsd,
    /// Linux: `ip neighbor show <ip>` prints the entry for one address.
    Linux,
    /// Windows: `arp -a <ip>` prints the entry, with `-` between octets.
    Windows,
    /// Any other host: no tool is run and the sentinel is used.
    Other,
}

/// A command to run: the program and its arguments.
pub struct NeighborCommand {
    pub program: String,
    pub args: Vec<String>,
}

/// The texts of a list of strings.
pub open spec fn strings_view(v: Seq<String>) -> Seq<Seq<char>> {
    v.map_values(|a: String| a@)
}

/// The text of an optional string.
pub open spec fn opt_view(r: Option<String>) -> Option<Seq<char>> {
    match r {
        Some(s) => Some(s@),
        None => None,
    }
}

/// The text of an optional string slice.
pub open spec fn str_opt_view(r: Option<&str>) -> Option<Seq<char>> {
    match r {
        Some(s) => Some(s@),
        None => None,
    }
}

/// The address reported when none could be found.
pub open spec fn fallback_mac() -> Seq<char> {
    seq!['a', 'a', ':', 'b', 'b', ':', 'c', 'c', ':', 'd', 'd', ':', 'e', 'e', ':', 'f', 'f']
}

/// The sentinel address `aa:bb:cc:dd:ee:ff`.
pub fn fallback_mac_string() -> (r: String)
    ensures
        r@ == fallback_mac(),
{
    let v: Vec<char> = vec!['a', 'a', ':', 'b', 'b', ':', 'c', 'c', ':', 'd', 'd', ':', 'e', 'e', ':', 'f', 'f'];
    let r = string_of(&v);
    assert(r@ =~= fallback_mac());
    r
}

/// The neighbor-table command for `ip` on a host of `family`; `None` where no
/// tool is known or there is no address to ask about.
pub fn neighbor_command(family: HostFamily, ip: &str, is_ipv6: bool) -> (r: Option<NeighborCommand>)
    ensures
        ip@.len() == 0 ==> r is None,
        ip@.len() > 0 ==> match family {
            HostFamily::Bsd => r matches Some(c) && c.program@ == (if is_ipv6 { "ndp"@ } else { "arp"@ })
                && strings_view(c.args@) == seq!["-a"@],
            HostFamily::Linux => r matches Some(c) && c.program@ == "ip"@ && strings_view(c.args@)
                == seq!["neighbor"@, "show"@, ip@],
            HostFamily::Windows => r matches Some(c) && c.program@ == "arp"@ && strings_view(c.args@)
                == seq!["-a"@, ip@],
            HostFamily::Other => r is None,
        },
{
    if ip.is_empty() {
        return None;
    }
    match family {
        HostFamily::Bsd => {
            let program = if is_ipv6 {
                String::from_str("ndp")
            } else {
                String::from_str("arp")
            };
            let args: Vec<String> = vec![String::from_str("-a")];
            assert(strings_view(args@) =~= seq!["-a"@]);
            Some(NeighborCommand { program, args })
        },
        HostFamily::Linux => {
            let args: Vec<String> = vec![
                String::from_str("neighbor"),
                String::from_str("show"),
                String::from_str(ip),
            ];
            assert(strings_view(args@) =~= seq!["neighbor"@, "show"@, ip@]);
            Some(NeighborCommand { program: String::from_str("ip"), args })
        },
        HostFamily::Windows => {
            let args: Vec<String> = vec![String::from_str("-a"), String::from_str(ip)];
            assert(strings_view(args@) =~= seq!["-a"@, ip@]);
            Some(NeighborCommand { program: String::from_str("arp"), args })
        },
        HostFamily::Other => None,
    }
}

/// The first token of one line of tool output that may be an address in `style`.
pub fn mac_in_line(line: &str, style: MacStyle) -> (r: Option<String>)
    ensures
        opt_view(r) == mac_token(line@, style),
{
    let l = chars_of(line);
    match find_mac_token(&l, style) {
        Some(t) => Some(string_of(&t)),
        None => None,
    }
}

/// What the output `out` of the neighbor-table tool of `family` gives as the
/// address of `ip`: on BSD the first colon token of the first line naming
/// `ip`, on Linux the token after `lladdr` on the first line, on Windows the
/// first hyphen token of the first line naming `ip`, normalized.
pub open spec fn mac_from_output(family: HostFamily, ip: Seq<char>, out: Seq<char>) -> Option<Seq<char>> {
    match family {
        HostFamily::Bsd => table_token(out, ip, MacStyle::Colon),
        HostFamily::Linux => first_line_lladdr(out),
        HostFamily::Windows => match table_token(out, ip, MacStyle::Hyphen) {
            Some(t) => Some(normalized_mac(t)),
            None => None,
        },
        HostFamily::Other => None,
    }
}

/// Reads the address of `ip` from the output of the neighbor-table tool.
pub fn scan_neighbor_output(family: HostFamily, ip: &str, output: &str) -> (r: Option<String>)
    ensures
        opt_view(r) == mac_from_output(family, ip@, output@),
        family == HostFamily::Windows ==> (table_token(output@, ip@, MacStyle::Hyphen) matches Some(t)
            && is_mac_text(t, '-') ==> (r matches Some(m) && is_canonical_mac(m@))),
{
    let s = chars_of(output);
    let p = chars_of(ip);
    match family {
        HostFamily::Bsd => match find_table_token(&s, &p, MacStyle::Colon) {
            Some(t) => Some(string_of(&t)),
            None => None,
        },
        HostFamily::Linux => match find_first_line_lladdr(&s) {
            Some(t) => Some(string_of(&t)),
            None => None,
        },
        HostFamily::Windows => match find_table_token(&s, &p, MacStyle::Hyphen) {
            Some(t) => Some(normalize_mac(&t)),
            None => None,
        },
        HostFamily::Other => None,
    }
}

/// The gateway address: what the tool's output gives, else the sentinel.
/// `output` is `None` when the tool could not be run or failed.
pub open spec fn resolved_mac(family: HostFamily, ip: Seq<char>, output: Option<Seq<char>>) -> Seq<char> {
    match output {
        Some(out) => match mac_from_output(family, ip, out) {
            Some(m) => m,
            None => fallback_mac(),
        },
        None => fallback_mac(),
    }
}

/// Resolves the gateway's link-layer address from the tool's output, and
/// never fails: without a run of the tool, or without a token in its
/// output, the result is the sentinel `aa:bb:cc:dd:ee:ff`.
pub fn resolve_gateway_mac(family: HostFamily, ip: &str, output: Option<&str>) -> (r: String)
    ensures
        r@ == resolved_mac(family, ip@, str_opt_view(output)),
        output is None ==> r@ == fallback_mac(),
        output matches Some(o) && mac_from_output(family, ip@, o@) is None ==> r@ == fallback_mac(),
{
    match output {
        Some(o) => match scan_neighbor_output(family, ip, o) {
            Some(m) => m,
            None => fallback_mac_string(),
        },
        None => fallback_mac_string(),
    }
}

} // verus!
