//! The atomic OVS handoff through systemd-networkd: the uplink read from `ip` output and
//! `resolv.conf`, and the networkd files that move its address onto the bridge.
use vstd::prelude::*;
use vstd::string::*;
use crate::text::{owned, push_str, push_decimal, dec, texts};
use crate::lines::{lines, words, trim, starts, split_on, parse_u32, text_lines, split_words, trim_text, starts_with_text, split_char, parse_u32_text};
use crate::interfaces::{find, find_chars};
use crate::error::Error;

verus! {

/// The uplink interface and the address it carries.
pub struct UplinkConfig {
    pub interface: String,
    pub ip: String,
    pub prefix: u8,
    pub gateway: String,
    pub dns_servers: Vec<String>,
}

/// The nameservers of `resolv.conf` text: the second word of each trimmed line that starts
/// with `nameserver` and has one.
pub open spec fn nameservers(ls: Seq<Seq<char>>) -> Seq<Seq<char>>
    decreases ls.len(),
{
    if ls.len() == 0 {
        Seq::empty()
    } else if starts(trim(ls.last()), "nameserver"@) && words(trim(ls.last())).len() >= 2 {
        nameservers(ls.drop_last()).push(words(trim(ls.last()))[1])
    } else {
        nameservers(ls.drop_last())
    }
}

/// The DNS servers of `resolv.conf`, or Google's two when it names none.
pub open spec fn dns_servers_of(resolv: Seq<char>) -> Seq<Seq<char>> {
    if nameservers(lines(resolv)).len() == 0 {
        seq!["8.8.8.8"@, "8.8.4.4"@]
    } else {
        nameservers(lines(resolv))
    }
}

/// Reads the DNS servers out of `resolv.conf` text.
pub fn dns_servers_from(resolv: &str) -> (r: Vec<String>)
    ensures
        texts(r@) == dns_servers_of(resolv@),
{
    let ls = text_lines(resolv);
    let mut out: Vec<String> = Vec::new();
    let mut i: usize = 0;
    while i < ls.len()
        invariant
            i <= ls@.len(),
            texts(ls@) == lines(resolv@),
            texts(out@) == nameservers(lines(resolv@).subrange(0, i as int)),
        decreases ls@.len() - i,
    {
        let ghost pre = lines(resolv@).subrange(0, i as int);
        let ghost post = lines(resolv@).subrange(0, i + 1);
        assert(post.drop_last() =~= pre);
        assert(post.last() == ls@[i as int]@);
        let t = trim_text(ls[i].as_str());
        if starts_with_text(t.as_str(), "nameserver") {
            let ws = split_words(t.as_str());
            if ws.len() >= 2 {
                assert(texts(ws@)[1] == ws@[1]@);
                let ghost before = out@;
                out.push(ws[1].clone());
                assert(texts(out@) =~= texts(before).push(ws@[1]@));
            }
        }
        i = i + 1;
    }
    assert(lines(resolv@).subrange(0, ls@.len() as int) =~= lines(resolv@));
    if out.len() == 0 {
        let mut d: Vec<String> = Vec::new();
        d.push(owned("8.8.8.8"));
        d.push(owned("8.8.4.4"));
        assert(texts(d@) =~= seq!["8.8.8.8"@, "8.8.4.4"@]);
        return d;
    }
    out
}

/// The first word that contains `/`.
pub open spec fn first_cidr_word(ws: Seq<Seq<char>>) -> Option<Seq<char>>
    decreases ws.len(),
{
    if ws.len() == 0 {
        None
    } else if find(ws[0], "/"@) is Some {
        Some(ws[0])
    } else {
        first_cidr_word(ws.subrange(1, ws.len() as int))
    }
}

/// What `str::parse::<u8>` gives.
pub open spec fn parse_u8(s: Seq<char>) -> Option<u8> {
    match parse_u32(s) {
        Some(v) => if v <= 255 { Some(v as u8) } else { None },
        None => None,
    }
}

/// The uplink read from `ip -o -4 route show default` and `ip -o -4 addr show` output: the
/// interface is the fifth word of the route, the address the first word with a `/`, split
/// into address and prefix, and the gateway the third word of the route.
pub open spec fn uplink_of(route: Seq<char>, addr: Seq<char>) -> Option<(Seq<char>, Seq<char>, u8, Seq<char>)> {
    let rw = words(route);
    if rw.len() < 5 {
        None
    } else {
        match first_cidr_word(words(addr)) {
            Some(w) => {
                let parts = split_on(w, '/');
                match parse_u8(parts[1]) {
                    Some(p) => if rw.len() >= 3 {
                        Some((rw[4], parts[0], p, rw[2]))
                    } else {
                        None
                    },
                    None => None,
                }
            },
            None => None,
        }
    }
}

proof fn lemma_split_two(s: Seq<char>, c: char)
    requires
        crate::lines::index_of(s, c) is Some,
    ensures
        split_on(s, c).len() >= 2,
{
    crate::lines::lemma_index_of_bound(s, c);
    let k = crate::lines::index_of(s, c)->0;
    crate::lines::lemma_split_nonempty(s.subrange(k + 1, s.len() as int), c);
}

fn first_cidr_index(ws: &Vec<String>) -> (r: Option<usize>)
    ensures
        match first_cidr_word(texts(ws@)) {
            Some(w) => r matches Some(k) && k < ws@.len() && ws@[k as int]@ == w,
            None => r is None,
        },
        r matches Some(k) ==> k < ws@.len() && find(ws@[k as int]@, "/"@) is Some,
{
    let slash = crate::text::chars_of("/");
    let mut i: usize = 0;
    assert(texts(ws@).subrange(0, ws@.len() as int) =~= texts(ws@));
    while i < ws.len()
        invariant
            i <= ws@.len(),
            slash@ == "/"@,
            first_cidr_word(texts(ws@)) == first_cidr_word(texts(ws@).subrange(i as int, ws@.len() as int)),
        decreases ws@.len() - i,
    {
        let ghost rest = texts(ws@).subrange(i as int, ws@.len() as int);
        assert(rest[0] == ws@[i as int]@);
        assert(rest.subrange(1, rest.len() as int) =~= texts(ws@).subrange(i + 1, ws@.len() as int));
        let cs = crate::text::chars_of(ws[i].as_str());
        if find_chars(&cs, &slash, 0).is_some() {
            return Some(i);
        }
        i = i + 1;
    }
    assert(texts(ws@).subrange(i as int, ws@.len() as int) =~= Seq::<Seq<char>>::empty());
    None
}

/// Builds the uplink from the outputs of the route and address commands and the DNS
/// servers; the first missing piece is reported.
pub fn uplink_from_outputs(route_output: &str, addr_output: &str, dns_servers: Vec<String>) -> (r: Result<UplinkConfig, Error>)
    ensures
        match uplink_of(route_output@, addr_output@) {
            Some((i, ip, p, g)) => r matches Ok(u) && u.interface@ == i && u.ip@ == ip && u.prefix == p
                && u.gateway@ == g && u.dns_servers@ == dns_servers@,
            None => r is Err,
        },
        words(route_output@).len() < 5 ==> (r matches Err(Error::Network(m)) && m@ == "Could not find uplink interface"@),
        words(route_output@).len() >= 5 && first_cidr_word(words(addr_output@)) is None ==> (r matches Err(
            Error::Network(m),
        ) && m@ == "Could not find IP address"@),
        words(route_output@).len() >= 5 && (first_cidr_word(words(addr_output@)) matches Some(w) && parse_u8(
            split_on(w, '/')[1],
        ) is None) ==> (r matches Err(Error::Network(m)) && m@ == "Invalid prefix length"@),
{
    let rw = split_words(route_output);
    if rw.len() < 5 {
        return Err(Error::Network(owned("Could not find uplink interface")));
    }
    assert(texts(rw@)[4] == rw@[4]@);
    assert(texts(rw@)[2] == rw@[2]@);
    let aw = split_words(addr_output);
    let k = match first_cidr_index(&aw) {
        Some(k) => k,
        None => {
            return Err(Error::Network(owned("Could not find IP address")));
        },
    };
    proof {
        crate::interfaces::lemma_find_index_of(aw@[k as int]@, '/');
        lemma_split_two(aw@[k as int]@, '/');
    }
    let parts = split_char(aw[k].as_str(), '/');
    assert(texts(parts@)[0] == parts@[0]@);
    assert(texts(parts@)[1] == parts@[1]@);
    let prefix: u8 = match parse_u32_text(parts[1].as_str()) {
        Some(v) => {
            if v > 255 {
                return Err(Error::Network(owned("Invalid prefix length")));
            }
            v as u8
        },
        None => {
            return Err(Error::Network(owned("Invalid prefix length")));
        },
    };
    Ok(UplinkConfig {
        interface: rw[4].clone(),
        ip: parts[0].clone(),
        prefix,
        gateway: rw[2].clone(),
        dns_servers,
    })
}

/// The `.network` file that attaches the uplink to `ovsbr0`.
pub open spec fn uplink_network(u: UplinkConfig) -> Seq<char> {
    "# Uplink interface - attached to ovsbr0\n# IP configuration moves to bridge\n[Match]\nName="@ + u.interface@
        + "\n\n[Network]\nBridge=ovsbr0\nIgnoreCarrierLoss=yes\n"@
}

/// Builds the uplink's `.network` file.
pub fn uplink_network_text(u: &UplinkConfig) -> (r: String)
    ensures
        r@ == uplink_network(*u),
{
    let mut s = owned("# Uplink interface - attached to ovsbr0\n# IP configuration moves to bridge\n[Match]\nName=");
    push_str(&mut s, u.interface.as_str());
    push_str(&mut s, "\n\n[Network]\nBridge=ovsbr0\nIgnoreCarrierLoss=yes\n");
    s
}

/// `DNS=` lines.
pub open spec fn dns_lines(ds: Seq<Seq<char>>) -> Seq<char>
    decreases ds.len(),
{
    if ds.len() == 0 {
        Seq::empty()
    } else {
        dns_lines(ds.drop_last()) + "DNS="@ + ds.last() + "\n"@
    }
}

/// The `.network` file of `ovsbr0`, which takes over the uplink's address.
pub open spec fn bridge_network(u: UplinkConfig) -> Seq<char> {
    "# OVS Bridge 0 network configuration\n# IP moved from "@ + u.interface@ + "\n[Match]\nName=ovsbr0\n\n[Network]\nAddress="@
        + u.ip@ + "/"@ + dec(u.prefix as nat) + "\nGateway="@ + u.gateway@ + "\n"@ + dns_lines(texts(u.dns_servers@))
        + "IgnoreCarrierLoss=yes\nConfigureWithoutCarrier=yes\n"@
}

/// Builds the `.network` file of `ovsbr0`.
pub fn bridge_network_text(u: &UplinkConfig) -> (r: String)
    ensures
        r@ == bridge_network(*u),
{
    let mut s = owned("# OVS Bridge 0 network configuration\n# IP moved from ");
    push_str(&mut s, u.interface.as_str());
    push_str(&mut s, "\n[Match]\nName=ovsbr0\n\n[Network]\nAddress=");
    push_str(&mut s, u.ip.as_str());
    push_str(&mut s, "/");
    push_decimal(&mut s, u.prefix as u64);
    push_str(&mut s, "\nGateway=");
    push_str(&mut s, u.gateway.as_str());
    push_str(&mut s, "\n");
    let ghost head = s@;
    let mut i: usize = 0;
    while i < u.dns_servers.len()
        invariant
            i <= u.dns_servers@.len(),
            s@ == head + dns_lines(texts(u.dns_servers@.subrange(0, i as int))),
        decreases u.dns_servers@.len() - i,
    {
        let ghost pre = texts(u.dns_servers@.subrange(0, i as int));
        let ghost post = texts(u.dns_servers@.subrange(0, i + 1));
        assert(post.drop_last() =~= pre);
        assert(post.last() == u.dns_servers@[i as int]@);
        push_str(&mut s, "DNS=");
        push_str(&mut s, u.dns_servers[i].as_str());
        push_str(&mut s, "\n");
        assert(s@ =~= head + dns_lines(post));
        i = i + 1;
    }
    assert(u.dns_servers@.subrange(0, u.dns_servers@.len() as int) =~= u.dns_servers@);
    push_str(&mut s, "IgnoreCarrierLoss=yes\nConfigureWithoutCarrier=yes\n");
    assert(s@ =~= bridge_network(*u));
    s
}

/// The `.netdev` file of OVS bridge `ovsbr0` (`primary`) or `ovsbr1`, stamped with its
/// creation time.
pub open spec fn bridge_netdev(primary: bool, created: Seq<char>) -> Seq<char> {
    if primary {
        "# OVS Bridge 0 - Primary bridge with uplink\n# Created: "@ + created + "\n[NetDev]\nName=ovsbr0\nKind=openvswitch\n"@
    } else {
        "# OVS Bridge 1 - Isolated bridge for containers\n# Created: "@ + created
            + "\n[NetDev]\nName=ovsbr1\nKind=openvswitch\n"@
    }
}

/// Builds a bridge's `.netdev` file.
pub fn bridge_netdev_text(primary: bool, created: &str) -> (r: String)
    ensures
        r@ == bridge_netdev(primary, created@),
{
    let mut s = if primary {
        owned("# OVS Bridge 0 - Primary bridge with uplink\n# Created: ")
    } else {
        owned("# OVS Bridge 1 - Isolated bridge for containers\n# Created: ")
    };
    push_str(&mut s, created);
    if primary {
        push_str(&mut s, "\n[NetDev]\nName=ovsbr0\nKind=openvswitch\n");
    } else {
        push_str(&mut s, "\n[NetDev]\nName=ovsbr1\nKind=openvswitch\n");
    }
    s
}

} // verus!
