//! Interface configuration for systemd-networkd: the schema the network plugins share,
//! the `.network` and `.netdev` files written from it, and the IPv4 addresses read back
//! from `ip addr show`.
use vstd::prelude::*;
use vstd::string::*;
use crate::text::{owned, push_str, push_char, push_decimal, dec, texts, same_text};
use crate::json::{Json, json_get, json_as_str};
use crate::lines::{lines, split_on, trim, words, starts, parse_u32, text_lines, split_char, trim_text, split_words, starts_with_text, parse_u32_text, split_once_on, split_once_text};

verus! {

/// Kinds of interfaces.
#[derive(Clone, Copy, PartialEq, Eq, Structural)]
pub enum InterfaceType {
    Ethernet,
    OvsBridge,
    OvsPort,
    Bridge,
}

/// An address with its prefix length.
pub struct AddressConfig {
    pub ip: String,
    pub prefix: u8,
}

/// IPv4 settings.
pub struct Ipv4Config {
    pub enabled: bool,
    pub dhcp: Option<bool>,
    pub address: Option<Vec<AddressConfig>>,
    pub gateway: Option<String>,
    pub dns: Option<Vec<String>>,
}

/// IPv6 settings.
pub struct Ipv6Config {
    pub enabled: bool,
    pub dhcp: Option<bool>,
}

/// One interface.
pub struct InterfaceConfig {
    pub name: String,
    pub if_type: InterfaceType,
    pub ports: Option<Vec<String>>,
    pub ipv4: Option<Ipv4Config>,
    pub ipv6: Option<Ipv6Config>,
    pub controller: Option<String>,
    /// Hardware properties found by introspection.
    pub properties: Option<Vec<(String, crate::json::Json)>>,
    /// The property names ever seen (the list only grows).
    pub property_schema: Option<Vec<String>>,
}

/// A set of interfaces.
pub struct NetworkConfig {
    pub interfaces: Vec<InterfaceConfig>,
}

/// `Address=ip/prefix` lines.
pub open spec fn address_lines(addrs: Seq<AddressConfig>) -> Seq<char>
    decreases addrs.len(),
{
    if addrs.len() == 0 {
        Seq::empty()
    } else {
        address_lines(addrs.drop_last()) + "Address="@ + addrs.last().ip@ + "/"@ + dec(addrs.last().prefix as nat)
            + "\n"@
    }
}

/// `DNS=server` lines.
pub open spec fn dns_lines(servers: Seq<String>) -> Seq<char>
    decreases servers.len(),
{
    if servers.len() == 0 {
        Seq::empty()
    } else {
        dns_lines(servers.drop_last()) + "DNS="@ + servers.last()@ + "\n"@
    }
}

/// The `[Network]` lines of IPv4: `DHCP=yes` for DHCP, otherwise the static addresses with
/// the gateway (and, when `with_dns`, the DNS servers); nothing when IPv4 is off or there is
/// no address list.
pub open spec fn ipv4_lines(v: Option<Ipv4Config>, with_dns: bool) -> Seq<char> {
    match v {
        Some(c) => if !c.enabled {
            Seq::empty()
        } else if c.dhcp == Some(true) {
            "DHCP=yes\n"@
        } else {
            match c.address {
                Some(addrs) => address_lines(addrs@) + (match c.gateway {
                    Some(g) => "Gateway="@ + g@ + "\n"@,
                    None => Seq::empty(),
                }) + (if with_dns {
                    match c.dns {
                        Some(d) => dns_lines(d@),
                        None => Seq::empty(),
                    }
                } else {
                    Seq::empty()
                }),
                None => Seq::empty(),
            }
        },
        None => Seq::empty(),
    }
}

/// The `.network` file of an interface.
pub open spec fn network_file_text(c: InterfaceConfig, with_dns: bool) -> Seq<char> {
    "[Match]\nName="@ + c.name@ + "\n\n[Network]\n"@ + ipv4_lines(c.ipv4, with_dns) + (match c.controller {
        Some(b) => "Bridge="@ + b@ + "\n"@,
        None => Seq::empty(),
    })
}

fn push_addresses(out: &mut String, addrs: &Vec<AddressConfig>)
    ensures
        final(out)@ == old(out)@ + address_lines(addrs@),
{
    let ghost start = out@;
    let mut i: usize = 0;
    while i < addrs.len()
        invariant
            i <= addrs@.len(),
            out@ == start + address_lines(addrs@.subrange(0, i as int)),
        decreases addrs@.len() - i,
    {
        assert(addrs@.subrange(0, i + 1).drop_last() =~= addrs@.subrange(0, i as int));
        proof {
            reveal_strlit("\n");
            reveal_strlit("/");
        }
        push_str(out, "Address=");
        push_str(out, addrs[i].ip.as_str());
        push_char(out, '/');
        push_decimal(out, addrs[i].prefix as u64);
        push_char(out, '\n');
        assert(out@ =~= start + address_lines(addrs@.subrange(0, i + 1)));
        i = i + 1;
    }
    assert(addrs@.subrange(0, addrs@.len() as int) =~= addrs@);
}

fn push_dns(out: &mut String, servers: &Vec<String>)
    ensures
        final(out)@ == old(out)@ + dns_lines(servers@),
{
    let ghost start = out@;
    let mut i: usize = 0;
    while i < servers.len()
        invariant
            i <= servers@.len(),
            out@ == start + dns_lines(servers@.subrange(0, i as int)),
        decreases servers@.len() - i,
    {
        assert(servers@.subrange(0, i + 1).drop_last() =~= servers@.subrange(0, i as int));
        proof {
            reveal_strlit("\n");
        }
        push_str(out, "DNS=");
        push_str(out, servers[i].as_str());
        push_char(out, '\n');
        assert(out@ =~= start + dns_lines(servers@.subrange(0, i + 1)));
        i = i + 1;
    }
    assert(servers@.subrange(0, servers@.len() as int) =~= servers@);
}

/// Builds the `.network` file of an interface.
pub fn network_file(config: &InterfaceConfig, with_dns: bool) -> (r: String)
    ensures
        r@ == network_file_text(*config, with_dns),
{
    proof {
        reveal_strlit("\n");
    }
    let mut content = owned("[Match]\nName=");
    push_str(&mut content, config.name.as_str());
    push_str(&mut content, "\n\n[Network]\n");
    let ghost head = content@;
    match &config.ipv4 {
        Some(v) => {
            if v.enabled {
                if v.dhcp == Some(true) {
                    push_str(&mut content, "DHCP=yes\n");
                } else {
                    match &v.address {
                        Some(addrs) => {
                            push_addresses(&mut content, addrs);
                            let ghost a = content@;
                            match &v.gateway {
                                Some(g) => {
                                    push_str(&mut content, "Gateway=");
                                    push_str(&mut content, g.as_str());
                                    push_char(&mut content, '\n');
                                    assert(content@ =~= a + ("Gateway="@ + g@ + "\n"@));
                                },
                                None => {
                                    assert(content@ =~= a + Seq::<char>::empty());
                                },
                            }
                            let ghost b = content@;
                            if with_dns {
                                match &v.dns {
                                    Some(d) => {
                                        push_dns(&mut content, d);
                                    },
                                    None => {
                                        assert(content@ =~= b + Seq::<char>::empty());
                                    },
                                }
                            } else {
                                assert(content@ =~= b + Seq::<char>::empty());
                            }
                        },
                        None => {},
                    }
                }
            }
        },
        None => {},
    }
    assert(content@ =~= head + ipv4_lines(config.ipv4, with_dns));
    let ghost mid = content@;
    match &config.controller {
        Some(b) => {
            push_str(&mut content, "Bridge=");
            push_str(&mut content, b.as_str());
            push_char(&mut content, '\n');
            assert(content@ =~= mid + ("Bridge="@ + b@ + "\n"@));
        },
        None => {
            assert(content@ =~= mid + Seq::<char>::empty());
        },
    }
    content
}

/// `ip/prefix` split at `/`: the address and a decimal prefix, when there are exactly two
/// parts and the prefix parses as a `u32`.
pub open spec fn cidr_parts(cidr: Seq<char>) -> Option<(Seq<char>, u32)> {
    let parts = split_on(cidr, '/');
    if parts.len() == 2 && parse_u32(parts[1]) is Some {
        Some((parts[0], parse_u32(parts[1])->0))
    } else {
        None
    }
}

/// Splits `ip/prefix`.
pub fn parse_cidr(cidr: &str) -> (r: Option<(String, u32)>)
    ensures
        match cidr_parts(cidr@) {
            Some((ip, p)) => r matches Some((s, q)) && s@ == ip && q == p,
            None => r is None,
        },
{
    let parts = split_char(cidr, '/');
    if parts.len() == 2 {
        assert(texts(parts@)[0] == parts@[0]@);
        assert(texts(parts@)[1] == parts@[1]@);
        match parse_u32_text(parts[1].as_str()) {
            Some(p) => {
                return Some((parts[0].clone(), p));
            },
            None => {},
        }
    }
    None
}

/// The addresses of the `inet` lines of `ip addr show` output, in order: each trimmed line
/// that starts with `inet ` and whose second word is a valid `ip/prefix` gives the address
/// with its prefix cut to 8 bits.
pub open spec fn inet_addresses(ls: Seq<Seq<char>>) -> Seq<(Seq<char>, u8)>
    decreases ls.len(),
{
    if ls.len() == 0 {
        Seq::empty()
    } else {
        let prev = inet_addresses(ls.drop_last());
        let line = trim(ls.last());
        let ws = words(line);
        if starts(line, "inet "@) && ws.len() >= 2 && cidr_parts(ws[1]) is Some {
            let p = cidr_parts(ws[1])->0;
            prev.push((p.0, (p.1 % 256) as u8))
        } else {
            prev
        }
    }
}

/// Whether some trimmed line starts with `inet `.
pub open spec fn has_inet(ls: Seq<Seq<char>>) -> bool {
    exists|i: int| 0 <= i < ls.len() && starts(trim(#[trigger] ls[i]), "inet "@)
}

/// The address views of a list.
pub open spec fn address_views(a: Seq<AddressConfig>) -> Seq<(Seq<char>, u8)> {
    Seq::new(a.len(), |i: int| (a[i].ip@, a[i].prefix))
}

/// Reads the IPv4 configuration out of `ip addr show` output: none without an `inet` line;
/// otherwise enabled, with the parsed addresses and an empty DNS list.
pub fn parse_ipv4_config(output: &str) -> (r: Option<Ipv4Config>)
    ensures
        !has_inet(lines(output@)) ==> r is None,
        has_inet(lines(output@)) ==> (r matches Some(c) && c.enabled && c.dhcp is None && c.gateway is None
            && (c.address matches Some(a) && address_views(a@) == inet_addresses(lines(output@))) && (
        c.dns matches Some(d) && d@.len() == 0)),
{
    let ls = text_lines(output);
    let mut found = false;
    let mut addresses: Vec<AddressConfig> = Vec::new();
    let mut i: usize = 0;
    while i < ls.len()
        invariant
            i <= ls@.len(),
            texts(ls@) == lines(output@),
            found == has_inet(lines(output@).subrange(0, i as int)),
            address_views(addresses@) == inet_addresses(lines(output@).subrange(0, i as int)),
        decreases ls@.len() - i,
    {
        let ghost pre = lines(output@).subrange(0, i as int);
        let ghost post = lines(output@).subrange(0, i + 1);
        assert(post.drop_last() =~= pre);
        assert(post.last() == ls@[i as int]@);
        let line = trim_text(ls[i].as_str());
        let ghost before = addresses@;
        if starts_with_text(line.as_str(), "inet ") {
            found = true;
            let parts = split_words(line.as_str());
            if parts.len() >= 2 {
                assert(texts(parts@)[1] == parts@[1]@);
                match parse_cidr(parts[1].as_str()) {
                    Some((ip, prefix)) => {
                        let p8: u8 = (prefix % 256) as u8;
                        addresses.push(AddressConfig { ip, prefix: p8 });
                        let ghost cp = cidr_parts(words(trim(post.last()))[1])->0;
                        assert(address_views(addresses@) =~= address_views(before).push((cp.0, (cp.1 % 256) as u8)));
                    },
                    None => {},
                }
            }
            assert(starts(trim(post[i as int]), "inet "@));
        } else {
            assert forall|k: int| 0 <= k < post.len() && starts(trim(#[trigger] post[k]), "inet "@) implies 0 <= k < pre.len() && starts(trim(pre[k]), "inet "@) by {
                if k < i {
                    assert(post[k] == pre[k]);
                }
            }
        }
        proof {
            if found && !has_inet(pre) {
                assert(starts(trim(post[i as int]), "inet "@));
            }
            if has_inet(pre) {
                let k = choose|k: int| 0 <= k < pre.len() && starts(trim(#[trigger] pre[k]), "inet "@);
                assert(post[k] == pre[k]);
            }
        }
        i = i + 1;
    }
    assert(lines(output@).subrange(0, ls@.len() as int) =~= lines(output@));
    if found {
        Some(Ipv4Config { enabled: true, dhcp: None, address: Some(addresses), gateway: None, dns: Some(Vec::new()) })
    } else {
        None
    }
}

/// The systemd-networkd state plugin.
pub struct NetStatePlugin {
    pub config_dir: String,
}

impl NetStatePlugin {
    /// A plugin writing into `/etc/systemd/network`.
    pub fn new() -> (r: NetStatePlugin)
        ensures
            r.config_dir@ == "/etc/systemd/network"@,
    {
        NetStatePlugin { config_dir: owned("/etc/systemd/network") }
    }

    /// The `.network` file of an interface (DNS servers are not written).
    pub fn generate_network_file(&self, config: &InterfaceConfig) -> (r: Result<String, crate::error::Error>)
        ensures
            r matches Ok(t) && t@ == network_file_text(*config, false),
    {
        Ok(network_file(config, false))
    }
}

/// The earlier network state plugin, which also writes DNS servers and bridge `.netdev` files.
pub struct NetworkStatePlugin {
    pub config_dir: String,
}

impl NetworkStatePlugin {
    /// A plugin writing into `/etc/systemd/network`.
    pub fn new() -> (r: NetworkStatePlugin)
        ensures
            r.config_dir@ == "/etc/systemd/network"@,
    {
        NetworkStatePlugin { config_dir: owned("/etc/systemd/network") }
    }

    /// The `.network` file of an interface, DNS servers included.
    pub fn generate_network_file(&self, config: &InterfaceConfig) -> (r: String)
        ensures
            r@ == network_file_text(*config, true),
    {
        network_file(config, true)
    }

    /// The `.netdev` file of an OVS bridge; none for other interfaces.
    pub fn generate_netdev_file(&self, config: &InterfaceConfig) -> (r: Option<String>)
        ensures
            config.if_type == InterfaceType::OvsBridge ==> (r matches Some(t) && t@ == "[NetDev]\nName="@
                + config.name@ + "\nKind=openvswitch\n"@),
            config.if_type != InterfaceType::OvsBridge ==> r is None,
    {
        if config.if_type == InterfaceType::OvsBridge {
            let mut t = owned("[NetDev]\nName=");
            push_str(&mut t, config.name.as_str());
            push_str(&mut t, "\nKind=openvswitch\n");
            Some(t)
        } else {
            None
        }
    }
}


/// The value of a decimal `u8` (as `u8::from_str` reads it).
pub open spec fn parse_u8(s: Seq<char>) -> Option<u8> {
    match parse_u32(s) {
        Some(v) => if v <= 255 {
            Some(v as u8)
        } else {
            None
        },
        None => None,
    }
}

/// The addresses of the `inet` lines of `ip addr show` output, in order: each trimmed line
/// that starts with `inet `, whose second word splits at its first `/` into an address and
/// a decimal prefix below 256.
pub open spec fn inet_u8_addresses(ls: Seq<Seq<char>>) -> Seq<(Seq<char>, u8)>
    decreases ls.len(),
{
    if ls.len() == 0 {
        Seq::empty()
    } else {
        let prev = inet_u8_addresses(ls.drop_last());
        let line = trim(ls.last());
        let ws = words(line);
        if starts(line, "inet "@) && ws.len() >= 2 {
            match split_once_on(ws[1], "/"@) {
                Some((ip, pre)) => match parse_u8(pre) {
                    Some(v) => prev.push((ip, v)),
                    None => prev,
                },
                None => prev,
            }
        } else {
            prev
        }
    }
}

impl NetworkStatePlugin {
    /// The configuration of interface `name` from its `ip addr show` output: an OVS bridge
    /// for `ovsbr*` names, else ethernet; IPv4 enabled with its addresses when it has any,
    /// else disabled with DHCP on.
    pub fn interface_details(&self, name: &str, output: &str) -> (r: InterfaceConfig)
        ensures
            r.name@ == name@,
            r.if_type == (if starts(name@, "ovsbr"@) { InterfaceType::OvsBridge } else { InterfaceType::Ethernet }),
            r.ports is None && r.ipv6 is None && r.controller is None,
            r.properties is None && r.property_schema is None,
            inet_u8_addresses(lines(output@)).len() > 0 ==> (r.ipv4 matches Some(c) && c.enabled && c.dhcp is None
                && c.gateway is None && c.dns is None && (c.address matches Some(a) && address_views(a@)
                == inet_u8_addresses(lines(output@)))),
            inet_u8_addresses(lines(output@)).len() == 0 ==> (r.ipv4 matches Some(c) && !c.enabled && c.dhcp
                == Some(true) && c.address is None && c.gateway is None && c.dns is None),
    {
        let if_type = if starts_with_text(name, "ovsbr") { InterfaceType::OvsBridge } else { InterfaceType::Ethernet };
        let ls = text_lines(output);
        let ghost lv = texts(ls@);
        let mut addresses: Vec<AddressConfig> = Vec::new();
        let mut i: usize = 0;
        while i < ls.len()
            invariant
                lv == texts(ls@),
                lv == lines(output@),
                i <= ls@.len(),
                address_views(addresses@) == inet_u8_addresses(lv.take(i as int)),
            decreases ls@.len() - i,
        {
            proof {
                assert(lv.take(i + 1).drop_last() =~= lv.take(i as int));
                assert(lv.take(i + 1).last() == ls@[i as int]@);
            }
            let ghost before = addresses@;
            let line = trim_text(ls[i].as_str());
            if starts_with_text(line.as_str(), "inet ") {
                let parts = split_words(line.as_str());
                if parts.len() >= 2 {
                    assert(texts(parts@)[1] == parts@[1]@);
                    match split_once_text(parts[1].as_str(), "/") {
                        Some((ip, p)) => {
                            match parse_u32_text(p.as_str()) {
                                Some(v) => {
                                    if v <= 255 {
                                        addresses.push(AddressConfig { ip, prefix: v as u8 });
                                        assert(address_views(addresses@) =~= address_views(before).push((ip@, v as u8)));
                                    }
                                },
                                None => {},
                            }
                        },
                        None => {},
                    }
                }
            }
            i = i + 1;
        }
        assert(lv.take(ls@.len() as int) =~= lv);
        let ipv4 = if addresses.len() > 0 {
            Ipv4Config { enabled: true, dhcp: None, address: Some(addresses), gateway: None, dns: None }
        } else {
            Ipv4Config { enabled: false, dhcp: Some(true), address: None, gateway: None, dns: None }
        };
        InterfaceConfig {
            name: owned(name),
            if_type,
            ports: None,
            ipv4: Some(ipv4),
            ipv6: None,
            controller: None,
            properties: None,
            property_schema: None,
        }
    }
}

/// The interface type `networkctl` reports under a type name (ethernet for names it does
/// not know, loopback included).
pub open spec fn interface_type_named(t: Seq<char>) -> InterfaceType {
    if t == "bridge"@ {
        InterfaceType::Bridge
    } else if t == "ovs-bridge"@ {
        InterfaceType::OvsBridge
    } else if t == "ovs-port"@ {
        InterfaceType::OvsPort
    } else {
        InterfaceType::Ethernet
    }
}

/// The interface type of a `networkctl` type name.
pub fn interface_type_of(t: &str) -> (r: InterfaceType)
    ensures
        r == interface_type_named(t@),
{
    if same_text(t, "bridge") {
        InterfaceType::Bridge
    } else if same_text(t, "ovs-bridge") {
        InterfaceType::OvsBridge
    } else if same_text(t, "ovs-port") {
        InterfaceType::OvsPort
    } else {
        InterfaceType::Ethernet
    }
}

/// The links of plain `networkctl list` output: each line of at least three words whose
/// first word is an index gives its name and type, the loopback link left out.
pub open spec fn listed_links(ls: Seq<Seq<char>>) -> Seq<(Seq<char>, Seq<char>)>
    decreases ls.len(),
{
    if ls.len() == 0 {
        seq![]
    } else {
        let ws = words(ls.last());
        let prev = listed_links(ls.drop_last());
        if ws.len() >= 3 && parse_u32(ws[0]) is Some && ws[1] != "lo"@ {
            prev.push((ws[1], ws[2]))
        } else {
            prev
        }
    }
}

/// Reads the links (name, type) out of plain `networkctl list` output.
pub fn networkctl_links(output: &str) -> (r: Vec<(String, String)>)
    ensures
        r@.map_values(|e: (String, String)| (e.0@, e.1@)) == listed_links(lines(output@)),
{
    let ls = text_lines(output);
    let ghost lv = texts(ls@);
    let mut out: Vec<(String, String)> = Vec::new();
    let mut i: usize = 0;
    while i < ls.len()
        invariant
            lv == texts(ls@),
            lv == lines(output@),
            i <= ls@.len(),
            out@.map_values(|e: (String, String)| (e.0@, e.1@)) == listed_links(lv.take(i as int)),
        decreases ls@.len() - i,
    {
        proof {
            assert(lv.take(i + 1).drop_last() =~= lv.take(i as int));
            assert(lv.take(i + 1).last() == ls@[i as int]@);
        }
        let ws = split_words(ls[i].as_str());
        let ghost before = out@;
        if ws.len() >= 3 {
            proof {
                assert(texts(ws@)[0] == ws@[0]@);
                assert(texts(ws@)[1] == ws@[1]@);
                assert(texts(ws@)[2] == ws@[2]@);
            }
            if parse_u32_text(ws[0].as_str()).is_some() && !same_text(ws[1].as_str(), "lo") {
                out.push((ws[1].clone(), ws[2].clone()));
                assert(out@.map_values(|e: (String, String)| (e.0@, e.1@)) =~= before.map_values(|e: (String, String)| (e.0@, e.1@)).push((ws@[1]@, ws@[2]@)));
            }
        }
        i = i + 1;
    }
    assert(lv.take(ls@.len() as int) =~= lv);
    out
}

/// The link names of `networkctl list --json=short` output (an array of objects): each
/// element's `Name` when it is a string, the loopback link left out.
pub open spec fn json_link_names(items: Seq<Json>) -> Seq<Seq<char>>
    decreases items.len(),
{
    if items.len() == 0 {
        seq![]
    } else {
        let prev = json_link_names(items.drop_last());
        match json_as_str(json_get(items.last(), "Name"@)) {
            Some(n) => if n != "lo"@ {
                prev.push(n)
            } else {
                prev
            },
            None => prev,
        }
    }
}

/// Reads the link names out of parsed `networkctl list --json=short` output.
pub fn link_names(items: &Vec<Json>) -> (r: Vec<String>)
    ensures
        texts(r@) == json_link_names(items@),
{
    let mut out: Vec<String> = Vec::new();
    let mut i: usize = 0;
    while i < items.len()
        invariant
            i <= items@.len(),
            texts(out@) == json_link_names(items@.take(i as int)),
        decreases items@.len() - i,
    {
        proof {
            assert(items@.take(i + 1).drop_last() =~= items@.take(i as int));
            assert(items@.take(i + 1).last() == items@[i as int]);
        }
        let ghost before = out@;
        match crate::json::opt_as_str(items[i].get("Name")) {
            Some(n) => {
                if !same_text(n, "lo") {
                    out.push(owned(n));
                    assert(texts(out@) =~= texts(before).push(n@));
                }
            },
            None => {},
        }
        i = i + 1;
    }
    assert(items@.take(items@.len() as int) =~= items@);
    out
}
} // verus!
