//! Advanced network configuration (routes, OVS flows, DNS): reading it back from the output
//! of `ip route show`, `ovs-vsctl list-br`, `ovs-ofctl dump-flows` and the resolver files,
//! and the commands and file contents that apply it.
use vstd::prelude::*;
use vstd::string::*;
use crate::text::{owned, push_str, push_decimal, dec, texts, same_text, chars_of};
use crate::lines::{lines, words, starts, trim, text_lines, split_words, starts_with_text, trim_text, skip_text};
use crate::interfaces::find;
use crate::docker::contains_text;
use crate::json::Json;

verus! {

/// A route.
pub struct RouteConfig {
    pub destination: String,
    pub gateway: String,
    pub interface: Option<String>,
    pub metric: Option<u32>,
    pub properties: Option<Vec<(String, Json)>>,
}

/// An OpenFlow rule on a bridge.
pub struct OvsFlowConfig {
    pub bridge: String,
    pub priority: u32,
    pub match_rule: String,
    pub actions: String,
    pub properties: Option<Vec<(String, Json)>>,
}

/// Resolver settings.
pub struct DnsConfig {
    pub search_domains: Option<Vec<String>>,
    pub hostname: Option<String>,
    pub properties: Option<Vec<(String, Json)>>,
}

/// The advanced configuration: each section only when set.
pub struct NetcfgConfig {
    pub routing: Option<Vec<RouteConfig>>,
    pub ovs_flows: Option<Vec<OvsFlowConfig>>,
    pub dns: Option<DnsConfig>,
}

/// The route a line of `ip route show` describes: `<destination> via <gateway> ...`, with
/// the fifth word as its interface when there is one.
pub open spec fn route_of(ws: Seq<Seq<char>>) -> Option<(Seq<char>, Seq<char>, Option<Seq<char>>)> {
    if ws.len() >= 3 && ws[1] == "via"@ {
        Some((ws[0], ws[2], if ws.len() > 4 { Some(ws[4]) } else { None }))
    } else {
        None
    }
}

/// The routes of the lines of `ip route show`, in order.
pub open spec fn routes_of(ls: Seq<Seq<char>>) -> Seq<(Seq<char>, Seq<char>, Option<Seq<char>>)>
    decreases ls.len(),
{
    if ls.len() == 0 {
        seq![]
    } else {
        match route_of(words(ls.last())) {
            Some(r) => routes_of(ls.drop_last()).push(r),
            None => routes_of(ls.drop_last()),
        }
    }
}

/// The route as values.
pub open spec fn route_view(r: RouteConfig) -> (Seq<char>, Seq<char>, Option<Seq<char>>) {
    (r.destination@, r.gateway@, match r.interface {
        Some(i) => Some(i@),
        None => None,
    })
}

/// Reads the routes out of `ip route show` output (no metric or properties).
pub fn parse_routes(output: &str) -> (r: Vec<RouteConfig>)
    ensures
        r@.len() == routes_of(lines(output@)).len(),
        forall|i: int| 0 <= i < r@.len() ==> route_view(#[trigger] r@[i]) == routes_of(lines(output@))[i]
            && r@[i].metric is None && r@[i].properties is None,
{
    proof {
        reveal_strlit("via");
    }
    let ls = text_lines(output);
    let ghost lv = texts(ls@);
    let mut out: Vec<RouteConfig> = Vec::new();
    let mut i: usize = 0;
    while i < ls.len()
        invariant
            lv == texts(ls@),
            lv == lines(output@),
            i <= ls@.len(),
            out@.len() == routes_of(lv.take(i as int)).len(),
            forall|k: int| 0 <= k < out@.len() ==> route_view(#[trigger] out@[k]) == routes_of(lv.take(i as int))[k]
                && out@[k].metric is None && out@[k].properties is None,
        decreases ls@.len() - i,
    {
        proof {
            assert(lv.take(i + 1).drop_last() =~= lv.take(i as int));
            assert(lv.take(i + 1).last() == ls@[i as int]@);
        }
        let ws = split_words(ls[i].as_str());
        let ghost wv = texts(ws@);
        if ws.len() >= 3 && same_text(ws[1].as_str(), "via") {
            proof {
                assert(wv[1] == ws@[1]@);
            }
            let interface = if ws.len() > 4 {
                Some(ws[4].clone())
            } else {
                None
            };
            let route = RouteConfig {
                destination: ws[0].clone(),
                gateway: ws[2].clone(),
                interface,
                metric: None,
                properties: None,
            };
            out.push(route);
            proof {
                assert(wv[0] == ws@[0]@ && wv[2] == ws@[2]@);
                assert(ws@.len() > 4 ==> wv[4] == ws@[4]@);
            }
        } else {
            proof {
                assert(ws@.len() >= 3 ==> wv[1] == ws@[1]@);
            }
        }
        i = i + 1;
    }
    assert(lv.take(ls@.len() as int) =~= lv);
    out
}

/// Whether a line of `ovs-ofctl dump-flows` output is a flow rule: a header or `cookie=`
/// line that mentions a priority.
pub open spec fn is_flow_line(l: Seq<char>) -> bool {
    (find(l, "NXST_FLOW"@) is Some || starts(l, "cookie="@)) && find(l, "priority="@) is Some
}

/// The number of flow rule lines.
pub open spec fn flow_line_count(ls: Seq<Seq<char>>) -> nat
    decreases ls.len(),
{
    if ls.len() == 0 {
        0
    } else {
        flow_line_count(ls.drop_last()) + if is_flow_line(ls.last()) { 1nat } else { 0nat }
    }
}

/// Reads the flows of `bridge` out of `ovs-ofctl dump-flows` output: one flow of priority 0
/// with empty match and actions per flow rule line (the rule itself is not read).
pub fn parse_flows(bridge: &str, output: &str) -> (r: Vec<OvsFlowConfig>)
    ensures
        r@.len() == flow_line_count(lines(output@)),
        forall|i: int| 0 <= i < r@.len() ==> (#[trigger] r@[i]).bridge@ == bridge@ && r@[i].priority == 0
            && r@[i].match_rule@.len() == 0 && r@[i].actions@.len() == 0 && r@[i].properties is None,
{
    let ls = text_lines(output);
    let ghost lv = texts(ls@);
    let mut out: Vec<OvsFlowConfig> = Vec::new();
    let mut i: usize = 0;
    while i < ls.len()
        invariant
            lv == texts(ls@),
            lv == lines(output@),
            i <= ls@.len(),
            out@.len() == flow_line_count(lv.take(i as int)),
            forall|k: int| 0 <= k < out@.len() ==> (#[trigger] out@[k]).bridge@ == bridge@ && out@[k].priority == 0
                && out@[k].match_rule@.len() == 0 && out@[k].actions@.len() == 0 && out@[k].properties is None,
        decreases ls@.len() - i,
    {
        proof {
            assert(lv.take(i + 1).drop_last() =~= lv.take(i as int));
            assert(lv.take(i + 1).last() == ls@[i as int]@);
        }
        let l = ls[i].as_str();
        if (contains_text(l, "NXST_FLOW") || starts_with_text(l, "cookie=")) && contains_text(l, "priority=") {
            out.push(OvsFlowConfig {
                bridge: owned(bridge),
                priority: 0,
                match_rule: String::new(),
                actions: String::new(),
                properties: None,
            });
        }
        i = i + 1;
    }
    assert(lv.take(ls@.len() as int) =~= lv);
    out
}

/// The bridges `ovs-vsctl list-br` lists: its lines, trimmed, without empty ones.
pub open spec fn bridge_names(ls: Seq<Seq<char>>) -> Seq<Seq<char>>
    decreases ls.len(),
{
    if ls.len() == 0 {
        seq![]
    } else if trim(ls.last()).len() == 0 {
        bridge_names(ls.drop_last())
    } else {
        bridge_names(ls.drop_last()).push(trim(ls.last()))
    }
}

/// Reads the bridge names out of `ovs-vsctl list-br` output.
pub fn parse_bridge_list(output: &str) -> (r: Vec<String>)
    ensures
        texts(r@) == bridge_names(lines(output@)),
{
    let ls = text_lines(output);
    let ghost lv = texts(ls@);
    let mut out: Vec<String> = Vec::new();
    let mut i: usize = 0;
    while i < ls.len()
        invariant
            lv == texts(ls@),
            lv == lines(output@),
            i <= ls@.len(),
            texts(out@) == bridge_names(lv.take(i as int)),
        decreases ls@.len() - i,
    {
        proof {
            assert(lv.take(i + 1).drop_last() =~= lv.take(i as int));
            assert(lv.take(i + 1).last() == ls@[i as int]@);
        }
        let t = trim_text(ls[i].as_str());
        let ghost before = out@;
        if chars_of(t.as_str()).len() > 0 {
            out.push(t);
            assert(texts(out@) =~= texts(before).push(t@));
        }
        i = i + 1;
    }
    assert(lv.take(ls@.len() as int) =~= lv);
    out
}


/// The search domains of resolver configuration lines: the words after `search ` on each
/// line that starts with it, in order.
pub open spec fn search_domains_of(ls: Seq<Seq<char>>) -> Seq<Seq<char>>
    decreases ls.len(),
{
    if ls.len() == 0 {
        seq![]
    } else if starts(ls.last(), "search "@) {
        search_domains_of(ls.drop_last()) + words(ls.last().skip(7))
    } else {
        search_domains_of(ls.drop_last())
    }
}

/// Reads the search domains out of `/etc/resolv.conf`; none when it lists none.
pub fn parse_search_domains(content: &str) -> (r: Option<Vec<String>>)
    ensures
        search_domains_of(lines(content@)).len() == 0 ==> r is None,
        search_domains_of(lines(content@)).len() > 0 ==> (r matches Some(ds) && texts(ds@) == search_domains_of(lines(content@))),
{
    proof {
        reveal_strlit("search ");
    }
    let ls = text_lines(content);
    let ghost lv = texts(ls@);
    let mut out: Vec<String> = Vec::new();
    let mut i: usize = 0;
    while i < ls.len()
        invariant
            lv == texts(ls@),
            lv == lines(content@),
            i <= ls@.len(),
            texts(out@) == search_domains_of(lv.take(i as int)),
        decreases ls@.len() - i,
    {
        proof {
            assert(lv.take(i + 1).drop_last() =~= lv.take(i as int));
            assert(lv.take(i + 1).last() == ls@[i as int]@);
        }
        let l = ls[i].as_str();
        if starts_with_text(l, "search ") {
            proof {
                reveal_strlit("search ");
            }
            assert("search "@.len() == 7);
            let rest = skip_text(l, 7);
            let ws = split_words(rest.as_str());
            let ghost before = out@;
            let mut k: usize = 0;
            while k < ws.len()
                invariant
                    k <= ws@.len(),
                    texts(out@) == texts(before) + texts(ws@).take(k as int),
                decreases ws@.len() - k,
            {
                let ghost prev = out@;
                out.push(ws[k].clone());
                proof {
                    assert(texts(out@) =~= texts(prev).push(ws@[k as int]@));
                    assert(texts(ws@).take(k + 1) =~= texts(ws@).take(k as int).push(ws@[k as int]@));
                }
                k = k + 1;
            }
            assert(texts(ws@).take(ws@.len() as int) =~= texts(ws@));
        }
        i = i + 1;
    }
    assert(lv.take(ls@.len() as int) =~= lv);
    if out.len() > 0 {
        Some(out)
    } else {
        None
    }
}

/// Whether a route is replaced when routes are applied: all but the default route and
/// link-local ones.
pub open spec fn route_removable(destination: Seq<char>) -> bool {
    destination != "default"@ && !starts(destination, "169.254"@)
}

/// Whether a current route is removed before the desired routes are added.
pub fn is_route_removable(destination: &str) -> (r: bool)
    ensures
        r == route_removable(destination@),
{
    !same_text(destination, "default") && !starts_with_text(destination, "169.254")
}

/// The `ip` arguments that remove a route.
pub fn route_del_args(destination: &str) -> (r: Vec<String>)
    ensures
        texts(r@) == seq!["route"@, "del"@, destination@],
{
    let mut a: Vec<String> = Vec::new();
    a.push(owned("route"));
    a.push(owned("del"));
    a.push(owned(destination));
    assert(texts(a@) =~= seq!["route"@, "del"@, destination@]);
    a
}

/// The `ip` arguments that add a route: destination, gateway, then its device and metric
/// when set.
pub open spec fn route_add_args_of(r: RouteConfig) -> Seq<Seq<char>> {
    seq!["route"@, "add"@, r.destination@, "via"@, r.gateway@] + match r.interface {
        Some(i) => seq!["dev"@, i@],
        None => seq![],
    } + match r.metric {
        Some(m) => seq!["metric"@, dec(m as nat)],
        None => seq![],
    }
}

/// The `ip` arguments that add a route.
pub fn route_add_args(route: &RouteConfig) -> (r: Vec<String>)
    ensures
        texts(r@) == route_add_args_of(*route),
{
    let mut a: Vec<String> = Vec::new();
    a.push(owned("route"));
    a.push(owned("add"));
    a.push(route.destination.clone());
    a.push(owned("via"));
    a.push(route.gateway.clone());
    let ghost base = texts(a@);
    match &route.interface {
        Some(i) => {
            a.push(owned("dev"));
            a.push(i.clone());
        },
        None => {},
    }
    let ghost mid = texts(a@);
    match route.metric {
        Some(m) => {
            a.push(owned("metric"));
            let mut t = String::new();
            push_decimal(&mut t, m as u64);
            a.push(t);
        },
        None => {},
    }
    assert(texts(a@) =~= route_add_args_of(*route));
    a
}

/// The rule `ovs-ofctl add-flow` takes for a flow.
pub open spec fn flow_rule(f: OvsFlowConfig) -> Seq<char> {
    "priority="@ + dec(f.priority as nat) + ","@ + f.match_rule@ + ",actions="@ + f.actions@
}

/// The rule `ovs-ofctl add-flow` takes for a flow.
pub fn flow_spec(flow: &OvsFlowConfig) -> (r: String)
    ensures
        r@ == flow_rule(*flow),
{
    let mut t = owned("priority=");
    push_decimal(&mut t, flow.priority as u64);
    push_str(&mut t, ",");
    push_str(&mut t, flow.match_rule.as_str());
    push_str(&mut t, ",actions=");
    push_str(&mut t, flow.actions.as_str());
    t
}

/// The lines of a resolver configuration that are not `search` lines, each ended by a
/// newline.
pub open spec fn kept_resolver_lines(ls: Seq<Seq<char>>) -> Seq<char>
    decreases ls.len(),
{
    if ls.len() == 0 {
        seq![]
    } else if starts(ls.last(), "search "@) {
        kept_resolver_lines(ls.drop_last())
    } else {
        kept_resolver_lines(ls.drop_last()) + ls.last() + "\n"@
    }
}

/// The words joined by single spaces.
pub open spec fn spaced(ws: Seq<Seq<char>>) -> Seq<char>
    decreases ws.len(),
{
    if ws.len() == 0 {
        seq![]
    } else if ws.len() == 1 {
        ws[0]
    } else {
        spaced(ws.drop_last()) + " "@ + ws.last()
    }
}

/// The new `/etc/resolv.conf`: one `search` line with the domains first, then the old
/// lines other than `search` lines.
pub open spec fn resolver_text(current: Seq<char>, domains: Seq<Seq<char>>) -> Seq<char> {
    "search "@ + spaced(domains) + "\n"@ + kept_resolver_lines(lines(current))
}

/// The new `/etc/resolv.conf` with the search domains `domains`.
pub fn resolv_conf_text(current: &str, domains: &Vec<String>) -> (r: String)
    ensures
        r@ == resolver_text(current@, texts(domains@)),
{
    proof {
        reveal_strlit("search ");
    }
    let mut t = owned("search ");
    let mut k: usize = 0;
    let ghost start = t@;
    while k < domains.len()
        invariant
            k <= domains@.len(),
            t@ == start + spaced(texts(domains@).take(k as int)),
        decreases domains@.len() - k,
    {
        if k > 0 {
            push_str(&mut t, " ");
        }
        push_str(&mut t, domains[k].as_str());
        proof {
            let ws = texts(domains@).take(k + 1);
            assert(ws.drop_last() =~= texts(domains@).take(k as int));
            assert(ws.last() == domains@[k as int]@);
            if k == 0 {
                assert(ws.len() == 1);
            }
        }
        k = k + 1;
    }
    assert(texts(domains@).take(domains@.len() as int) =~= texts(domains@));
    push_str(&mut t, "\n");
    let ls = text_lines(current);
    let ghost lv = texts(ls@);
    let ghost head = t@;
    let mut i: usize = 0;
    while i < ls.len()
        invariant
            lv == texts(ls@),
            lv == lines(current@),
            i <= ls@.len(),
            t@ == head + kept_resolver_lines(lv.take(i as int)),
        decreases ls@.len() - i,
    {
        proof {
            assert(lv.take(i + 1).drop_last() =~= lv.take(i as int));
            assert(lv.take(i + 1).last() == ls@[i as int]@);
        }
        let l = ls[i].as_str();
        if !starts_with_text(l, "search ") {
            push_str(&mut t, l);
            push_str(&mut t, "\n");
        }
        i = i + 1;
    }
    assert(lv.take(ls@.len() as int) =~= lv);
    t
}

/// The new `/etc/hostname`.
pub fn hostname_file(hostname: &str) -> (r: String)
    ensures
        r@ == hostname@ + "\n"@,
{
    let mut t = owned(hostname);
    push_str(&mut t, "\n");
    t
}

/// The hostname `/etc/hostname` holds: its content, trimmed.
pub fn parse_hostname(content: &str) -> (r: String)
    ensures
        r@ == trim(content@),
{
    trim_text(content)
}
} // verus!
