//! OpenFlow rules for an OVS bridge: the rule model, its `ovs-ofctl` text, and the rule
//! sets of each traffic policy, as the `ovs-ofctl` commands that install them.
use vstd::prelude::*;
use vstd::string::*;
use crate::text::{push_str, push_decimal, dec, owned, texts, lemma_dec_injective};

verus! {

/// Rule priority classes.
#[derive(Clone, Copy, PartialEq, Eq, Structural)]
pub enum FlowPriority {
    ContainerSpecific,
    ApplicationAware,
    PrivacyRouting,
    GeographicRouting,
    SecurityPolicy,
    VlanIsolation,
    DdosProtection,
    Default,
}

/// The OpenFlow priority of a class.
pub open spec fn priority_value(p: FlowPriority) -> nat {
    match p {
        FlowPriority::ContainerSpecific => 400,
        FlowPriority::ApplicationAware => 350,
        FlowPriority::PrivacyRouting => 300,
        FlowPriority::GeographicRouting => 250,
        FlowPriority::SecurityPolicy => 200,
        FlowPriority::VlanIsolation => 180,
        FlowPriority::DdosProtection => 150,
        FlowPriority::Default => 0,
    }
}

impl FlowPriority {
    /// The OpenFlow priority of this class.
    pub fn value(&self) -> (r: u32)
        ensures
            r == priority_value(*self),
    {
        match self {
            FlowPriority::ContainerSpecific => 400,
            FlowPriority::ApplicationAware => 350,
            FlowPriority::PrivacyRouting => 300,
            FlowPriority::GeographicRouting => 250,
            FlowPriority::SecurityPolicy => 200,
            FlowPriority::VlanIsolation => 180,
            FlowPriority::DdosProtection => 150,
            FlowPriority::Default => 0,
        }
    }
}

/// Rule actions.
pub enum FlowAction {
    /// `output:port`
    Output(String),
    /// `set_field:value->reg`
    SetField(String),
    /// `set_queue:queue`
    SetQueue(u32),
    /// `set_queue:queue,output:port`
    OutputWithQueue(String, u32),
    Drop,
    Normal,
    Local,
    Fragment,
    /// `set_field:rate->rate`
    RateLimit(u32),
}

/// Rule match conditions.
pub enum FlowMatch {
    IpSrc(String),
    IpDst(String),
    TcpDst(u16),
    UdpDst(u16),
    Vlan(u16),
    InPort(String),
    ArpTarget(String),
    Established,
    NewConnection,
}

/// A flow rule.
pub struct FlowRule {
    pub priority: FlowPriority,
    pub matches: Vec<FlowMatch>,
    pub actions: Vec<FlowAction>,
    pub comment: String,
}

/// Kinds of application traffic.
#[derive(Clone, Copy, PartialEq, Eq, Structural)]
pub enum Application {
    Tor,
    Signal,
    Browser,
    Streaming,
    Anonymous,
    General,
}

/// Privacy tunnels.
#[derive(Clone, Copy, PartialEq, Eq, Structural)]
pub enum PrivacyPath {
    WireGuard,
    Warp,
    XrayReality,
}

/// `ip,nw_src=ip`
pub open spec fn m_ip_src(ip: Seq<char>) -> Seq<char> {
    "ip,nw_src="@ + ip
}

/// `ip,nw_dst=ip`
pub open spec fn m_ip_dst(ip: Seq<char>) -> Seq<char> {
    "ip,nw_dst="@ + ip
}

/// `tcp,tp_dst=port`
pub open spec fn m_tcp_dst(port: u16) -> Seq<char> {
    "tcp,tp_dst="@ + dec(port as nat)
}

/// `udp,tp_dst=port`
pub open spec fn m_udp_dst(port: u16) -> Seq<char> {
    "udp,tp_dst="@ + dec(port as nat)
}

/// `in_port=port`
pub open spec fn m_in_port(port: Seq<char>) -> Seq<char> {
    "in_port="@ + port
}

/// The text of a match condition.
pub open spec fn match_text(m: FlowMatch) -> Seq<char> {
    match m {
        FlowMatch::IpSrc(ip) => m_ip_src(ip@),
        FlowMatch::IpDst(ip) => m_ip_dst(ip@),
        FlowMatch::TcpDst(p) => m_tcp_dst(p),
        FlowMatch::UdpDst(p) => m_udp_dst(p),
        FlowMatch::Vlan(v) => "dl_vlan="@ + dec(v as nat),
        FlowMatch::InPort(p) => m_in_port(p@),
        FlowMatch::ArpTarget(ip) => "arp,arp_tpa="@ + ip@,
        FlowMatch::Established => "ct_state=+est"@,
        FlowMatch::NewConnection => "ct_state=-est"@,
    }
}

/// `output:port`
pub open spec fn a_output(port: Seq<char>) -> Seq<char> {
    "output:"@ + port
}

/// `set_queue:queue`
pub open spec fn a_set_queue(q: u32) -> Seq<char> {
    "set_queue:"@ + dec(q as nat)
}

/// The action texts of an action (two for an output through a queue).
pub open spec fn action_texts(a: FlowAction) -> Seq<Seq<char>> {
    match a {
        FlowAction::Output(p) => seq![a_output(p@)],
        FlowAction::SetField(f) => seq!["set_field:"@ + f@],
        FlowAction::SetQueue(q) => seq![a_set_queue(q)],
        FlowAction::OutputWithQueue(p, q) => seq![a_set_queue(q), a_output(p@)],
        FlowAction::Drop => seq!["drop"@],
        FlowAction::Normal => seq!["NORMAL"@],
        FlowAction::Local => seq!["LOCAL"@],
        FlowAction::Fragment => seq!["fragment"@],
        FlowAction::RateLimit(r) => seq!["set_field:"@ + dec(r as nat) + "->rate"@],
    }
}

/// The match texts of a list of conditions.
pub open spec fn matches_texts(ms: Seq<FlowMatch>) -> Seq<Seq<char>>
    decreases ms.len(),
{
    if ms.len() == 0 {
        Seq::empty()
    } else {
        matches_texts(ms.drop_last()).push(match_text(ms.last()))
    }
}

/// The action texts of a list of actions, in order.
pub open spec fn actions_texts(acts: Seq<FlowAction>) -> Seq<Seq<char>>
    decreases acts.len(),
{
    if acts.len() == 0 {
        Seq::empty()
    } else {
        actions_texts(acts.drop_last()) + action_texts(acts.last())
    }
}

/// Words joined by commas.
pub open spec fn join_commas(ws: Seq<Seq<char>>) -> Seq<char>
    decreases ws.len(),
{
    if ws.len() == 0 {
        Seq::empty()
    } else if ws.len() == 1 {
        ws[0]
    } else {
        join_commas(ws.drop_last()) + ","@ + ws.last()
    }
}

/// An `ovs-ofctl` flow: `priority=P`, the match texts, and `actions=` with the action texts,
/// all joined by commas.
pub open spec fn flow_text(priority: nat, matches: Seq<Seq<char>>, actions: Seq<Seq<char>>) -> Seq<char> {
    join_commas(seq!["priority="@ + dec(priority)] + matches + seq!["actions="@ + join_commas(actions)])
}

/// The `ovs-ofctl` text of a rule.
pub open spec fn flow_string(r: FlowRule) -> Seq<char> {
    flow_text(priority_value(r.priority), matches_texts(r.matches@), actions_texts(r.actions@))
}

/// Port matches name their protocol and their port: a UDP destination port `p` matches
/// `udp,tp_dst=` and the decimal digits of `p`, a TCP one `tcp,tp_dst=` and the digits; so
/// a UDP match never reads as a TCP match, and different ports give different matches.
pub proof fn law_port_matches_name_protocol_and_port(p: u16, q: u16)
    ensures
        match_text(FlowMatch::UdpDst(p)) == "udp,tp_dst="@ + dec(p as nat),
        match_text(FlowMatch::TcpDst(p)) == "tcp,tp_dst="@ + dec(p as nat),
        match_text(FlowMatch::UdpDst(p)) != match_text(FlowMatch::TcpDst(q)),
        p != q ==> match_text(FlowMatch::UdpDst(p)) != match_text(FlowMatch::UdpDst(q)),
        p != q ==> match_text(FlowMatch::TcpDst(p)) != match_text(FlowMatch::TcpDst(q)),
{
    reveal_strlit("udp,tp_dst=");
    reveal_strlit("tcp,tp_dst=");
    assert(match_text(FlowMatch::UdpDst(p))[0] == 'u');
    assert(match_text(FlowMatch::TcpDst(q))[0] == 't');
    if p != q {
        let u = "udp,tp_dst="@;
        let t = "tcp,tp_dst="@;
        if match_text(FlowMatch::UdpDst(p)) == match_text(FlowMatch::UdpDst(q)) {
            assert(dec(p as nat) =~= match_text(FlowMatch::UdpDst(p)).skip(u.len() as int));
            assert(dec(q as nat) =~= match_text(FlowMatch::UdpDst(q)).skip(u.len() as int));
            lemma_dec_injective(p as nat, q as nat);
        }
        if match_text(FlowMatch::TcpDst(p)) == match_text(FlowMatch::TcpDst(q)) {
            assert(dec(p as nat) =~= match_text(FlowMatch::TcpDst(p)).skip(t.len() as int));
            assert(dec(q as nat) =~= match_text(FlowMatch::TcpDst(q)).skip(t.len() as int));
            lemma_dec_injective(p as nat, q as nat);
        }
    }
}

/// Address matches name their direction: a source address matches `ip,nw_src=` and the
/// address, a destination address `ip,nw_dst=` and the address, so the two never read
/// alike; an input port matches `in_port=` and the port.
pub proof fn law_address_matches_name_direction(a: String, b: String, port: String)
    ensures
        match_text(FlowMatch::IpSrc(a)) == "ip,nw_src="@ + a@,
        match_text(FlowMatch::IpDst(a)) == "ip,nw_dst="@ + a@,
        match_text(FlowMatch::IpSrc(a)) != match_text(FlowMatch::IpDst(b)),
        match_text(FlowMatch::InPort(port)) == "in_port="@ + port@,
{
    reveal_strlit("ip,nw_src=");
    reveal_strlit("ip,nw_dst=");
    assert(match_text(FlowMatch::IpSrc(a))[6] == 's');
    assert(match_text(FlowMatch::IpDst(b))[6] == 'd');
}

/// The flow of a rule with one match condition and one output: `priority=` and the
/// priority, the condition, and `actions=output:` and the port, joined by commas. The DNS
/// privacy rule, for one, reads `priority=300,udp,tp_dst=53,actions=output:` and its port.
pub proof fn law_single_match_flow(r: FlowRule, m: FlowMatch, port: String)
    requires
        r.matches@ == seq![m],
        r.actions@ == seq![FlowAction::Output(port)],
    ensures
        flow_string(r) == "priority="@ + dec(priority_value(r.priority)) + ","@ + match_text(m) + ",actions=output:"@ + port@,
        r.priority == FlowPriority::PrivacyRouting && m == FlowMatch::UdpDst(53) ==> flow_string(r)
            == "priority=300,udp,tp_dst=53,actions=output:"@ + port@,
{
    reveal_strlit("priority=300,udp,tp_dst=53,actions=output:");
    reveal_strlit("priority=");
    reveal_strlit("udp,tp_dst=");
    reveal_strlit(",actions=output:");
    reveal_strlit("actions=");
    reveal_strlit("output:");
    reveal_strlit(",");
    assert(r.matches@.drop_last() =~= Seq::<FlowMatch>::empty());
    assert(r.matches@.last() == m);
    assert(matches_texts(r.matches@.drop_last()) =~= Seq::<Seq<char>>::empty());
    assert(matches_texts(r.matches@) =~= seq![match_text(m)]);
    let acts = r.actions@;
    assert(acts.drop_last() =~= Seq::<FlowAction>::empty());
    assert(acts.last() == FlowAction::Output(port));
    assert(actions_texts(acts.drop_last()) =~= Seq::<Seq<char>>::empty());
    assert(action_texts(acts.last()) == seq![a_output(port@)]);
    assert(actions_texts(acts) =~= seq![a_output(port@)]);
    let head = "priority="@ + dec(priority_value(r.priority));
    let tail = "actions="@ + a_output(port@);
    let ws = seq![head] + seq![match_text(m)] + seq![tail];
    assert(ws.drop_last() =~= seq![head, match_text(m)]);
    assert(seq![head, match_text(m)].drop_last() =~= seq![head]);
    assert(join_commas(seq![head]) == head);
    assert(seq![head, match_text(m)].last() == match_text(m));
    assert(join_commas(seq![head, match_text(m)]) == head + ","@ + match_text(m));
    assert(join_commas(seq![a_output(port@)]) == a_output(port@));
    assert(ws.last() == tail);
    assert(join_commas(ws) == join_commas(ws.drop_last()) + ","@ + tail);
    assert(flow_string(r) == join_commas(ws));
    assert(flow_string(r) =~= head + ","@ + match_text(m) + ",actions=output:"@ + port@);
    if r.priority == FlowPriority::PrivacyRouting && m == FlowMatch::UdpDst(53) {
        assert(dec(300) =~= seq!['3', '0', '0']) by {
            reveal_with_fuel(dec, 4);
        }
        assert(dec(53) =~= seq!['5', '3']) by {
            reveal_with_fuel(dec, 3);
        }
        assert(flow_string(r) =~= "priority=300,udp,tp_dst=53,actions=output:"@ + port@);
    }
}

fn match_string(m: &FlowMatch) -> (r: String)
    ensures
        r@ == match_text(*m),
{
    let mut s = String::new();
    match m {
        FlowMatch::IpSrc(ip) => {
            push_str(&mut s, "ip,nw_src=");
            push_str(&mut s, ip.as_str());
        },
        FlowMatch::IpDst(ip) => {
            push_str(&mut s, "ip,nw_dst=");
            push_str(&mut s, ip.as_str());
        },
        FlowMatch::TcpDst(p) => {
            push_str(&mut s, "tcp,tp_dst=");
            push_decimal(&mut s, *p as u64);
        },
        FlowMatch::UdpDst(p) => {
            push_str(&mut s, "udp,tp_dst=");
            push_decimal(&mut s, *p as u64);
        },
        FlowMatch::Vlan(v) => {
            push_str(&mut s, "dl_vlan=");
            push_decimal(&mut s, *v as u64);
        },
        FlowMatch::InPort(p) => {
            push_str(&mut s, "in_port=");
            push_str(&mut s, p.as_str());
        },
        FlowMatch::ArpTarget(ip) => {
            push_str(&mut s, "arp,arp_tpa=");
            push_str(&mut s, ip.as_str());
        },
        FlowMatch::Established => {
            push_str(&mut s, "ct_state=+est");
        },
        FlowMatch::NewConnection => {
            push_str(&mut s, "ct_state=-est");
        },
    }
    s
}

fn push_action_strings(out: &mut Vec<String>, a: &FlowAction)
    ensures
        texts(final(out)@) == texts(old(out)@) + action_texts(*a),
{
    let ghost start = out@;
    match a {
        FlowAction::Output(p) => {
            let mut s = owned("output:");
            push_str(&mut s, p.as_str());
            out.push(s);
        },
        FlowAction::SetField(f) => {
            let mut s = owned("set_field:");
            push_str(&mut s, f.as_str());
            out.push(s);
        },
        FlowAction::SetQueue(q) => {
            let mut s = owned("set_queue:");
            push_decimal(&mut s, *q as u64);
            out.push(s);
        },
        FlowAction::OutputWithQueue(p, q) => {
            let mut s = owned("set_queue:");
            push_decimal(&mut s, *q as u64);
            out.push(s);
            let mut o = owned("output:");
            push_str(&mut o, p.as_str());
            out.push(o);
        },
        FlowAction::Drop => {
            out.push(owned("drop"));
        },
        FlowAction::Normal => {
            out.push(owned("NORMAL"));
        },
        FlowAction::Local => {
            out.push(owned("LOCAL"));
        },
        FlowAction::Fragment => {
            out.push(owned("fragment"));
        },
        FlowAction::RateLimit(r) => {
            let mut s = owned("set_field:");
            push_decimal(&mut s, *r as u64);
            push_str(&mut s, "->rate");
            out.push(s);
        },
    }
    assert(texts(out@) =~= texts(start) + action_texts(*a));
}

/// Joins strings with commas.
pub fn join_with_commas(ws: &Vec<String>) -> (r: String)
    ensures
        r@ == join_commas(texts(ws@)),
{
    let mut out = String::new();
    let mut i: usize = 0;
    while i < ws.len()
        invariant
            i <= ws@.len(),
            out@ == join_commas(texts(ws@.subrange(0, i as int))),
        decreases ws@.len() - i,
    {
        let ghost pre = texts(ws@.subrange(0, i as int));
        let ghost post = texts(ws@.subrange(0, i + 1));
        assert(post.drop_last() =~= pre);
        if i > 0 {
            push_str(&mut out, ",");
        }
        push_str(&mut out, ws[i].as_str());
        proof {
            if i == 0 {
                assert(post[0] == ws@[0]@);
                assert(out@ =~= join_commas(post));
            } else {
                assert(out@ =~= join_commas(post));
            }
        }
        i = i + 1;
    }
    assert(ws@.subrange(0, ws@.len() as int) =~= ws@);
    out
}

/// The `ovs-ofctl` text of a rule.
pub fn build_flow_string(rule: &FlowRule) -> (r: String)
    ensures
        r@ == flow_string(*rule),
{
    let mut parts: Vec<String> = Vec::new();
    let mut head = owned("priority=");
    push_decimal(&mut head, rule.priority.value() as u64);
    parts.push(head);
    let mut i: usize = 0;
    while i < rule.matches.len()
        invariant
            i <= rule.matches@.len(),
            texts(parts@) == seq!["priority="@ + dec(priority_value(rule.priority))] + matches_texts(
                rule.matches@.subrange(0, i as int),
            ),
        decreases rule.matches@.len() - i,
    {
        let ghost before = parts@;
        let m = match_string(&rule.matches[i]);
        parts.push(m);
        assert(rule.matches@.subrange(0, i + 1).drop_last() =~= rule.matches@.subrange(0, i as int));
        assert(texts(parts@) =~= texts(before).push(match_text(rule.matches@[i as int])));
        i = i + 1;
    }
    assert(rule.matches@.subrange(0, rule.matches@.len() as int) =~= rule.matches@);
    let mut acts: Vec<String> = Vec::new();
    let mut k: usize = 0;
    while k < rule.actions.len()
        invariant
            k <= rule.actions@.len(),
            texts(acts@) == actions_texts(rule.actions@.subrange(0, k as int)),
        decreases rule.actions@.len() - k,
    {
        push_action_strings(&mut acts, &rule.actions[k]);
        assert(rule.actions@.subrange(0, k + 1).drop_last() =~= rule.actions@.subrange(0, k as int));
        k = k + 1;
    }
    assert(rule.actions@.subrange(0, rule.actions@.len() as int) =~= rule.actions@);
    let joined = join_with_commas(&acts);
    let mut tail = owned("actions=");
    push_str(&mut tail, joined.as_str());
    let ghost before = parts@;
    parts.push(tail);
    assert(texts(parts@) =~= seq!["priority="@ + dec(priority_value(rule.priority))] + matches_texts(rule.matches@)
        + seq!["actions="@ + join_commas(actions_texts(rule.actions@))]);
    join_with_commas(&parts)
}

/// The arguments of `ovs-ofctl add-flow` for one flow.
pub open spec fn add_flow_argv(bridge: Seq<char>, flow: Seq<char>) -> Seq<Seq<char>> {
    seq!["add-flow"@, bridge, flow]
}

/// The views of a list of argument lists.
pub open spec fn argvs(cmds: Seq<Vec<String>>) -> Seq<Seq<Seq<char>>> {
    Seq::new(cmds.len(), |i: int| texts(cmds[i]@))
}

/// The flows of a list of rules, as `ovs-ofctl add-flow` argument lists.
pub open spec fn add_flow_plan(bridge: Seq<char>, rules: Seq<FlowRule>) -> Seq<Seq<Seq<char>>> {
    Seq::new(rules.len(), |i: int| add_flow_argv(bridge, flow_string(rules[i])))
}

/// The condition `ip,nw_src=ip`.
pub open spec fn is_ip_src(m: FlowMatch, ip: Seq<char>) -> bool {
    m matches FlowMatch::IpSrc(x) && x@ == ip
}

/// The condition `tcp,tp_dst=port`.
pub open spec fn is_tcp_dst(m: FlowMatch, port: u16) -> bool {
    m matches FlowMatch::TcpDst(x) && x == port
}

/// The action `set_field:value`.
pub open spec fn is_set_field(a: FlowAction, value: Seq<char>) -> bool {
    a matches FlowAction::SetField(x) && x@ == value
}

/// The action `set_queue:queue`.
pub open spec fn is_set_queue(a: FlowAction, queue: u32) -> bool {
    a matches FlowAction::SetQueue(x) && x == queue
}

/// The action `output:port`.
pub open spec fn is_output(a: FlowAction, port: Seq<char>) -> bool {
    a matches FlowAction::Output(x) && x@ == port
}

/// Manages the flows of one bridge.
pub struct OvsFlowManager {
    pub bridge_name: String,
}

/// The container-specific rule: traffic from `ip` tagged in register 0 and sent to `port`.
pub open spec fn container_flow(ip: Seq<char>, port: Seq<char>, reg: u32) -> Seq<char> {
    flow_text(400, seq![m_ip_src(ip)], seq!["set_field:"@ + dec(reg as nat) + "->reg0"@, a_output(port)])
}

/// A rule of one match and a list of actions, as the flow text it renders to.
pub open spec fn one_match_flow(priority: nat, m: Seq<char>, actions: Seq<Seq<char>>) -> Seq<char> {
    flow_text(priority, seq![m], actions)
}

impl OvsFlowManager {
    /// A manager for `bridge_name`.
    pub fn new(bridge_name: String) -> (r: OvsFlowManager)
        ensures
            r.bridge_name@ == bridge_name@,
    {
        OvsFlowManager { bridge_name }
    }

    /// The arguments of `ovs-ofctl` that clear every flow of the bridge.
    pub fn clear_all_flows(&self) -> (r: Vec<String>)
        ensures
            texts(r@) == seq!["del-flows"@, self.bridge_name@],
    {
        let mut r: Vec<String> = Vec::new();
        r.push(owned("del-flows"));
        r.push(self.bridge_name.clone());
        assert(texts(r@) =~= seq!["del-flows"@, self.bridge_name@]);
        r
    }

    /// The arguments of `ovs-ofctl` that add one rule.
    pub fn add_flow(&self, rule: &FlowRule) -> (r: Vec<String>)
        ensures
            texts(r@) == add_flow_argv(self.bridge_name@, flow_string(*rule)),
    {
        let mut r: Vec<String> = Vec::new();
        r.push(owned("add-flow"));
        r.push(self.bridge_name.clone());
        r.push(build_flow_string(rule));
        assert(texts(r@) =~= add_flow_argv(self.bridge_name@, flow_string(*rule)));
        r
    }

    /// The arguments of `ovs-ofctl` that remove one rule.
    pub fn remove_flow(&self, rule: &FlowRule) -> (r: Vec<String>)
        ensures
            texts(r@) == seq!["del-flows"@, self.bridge_name@, flow_string(*rule)],
    {
        let mut r: Vec<String> = Vec::new();
        r.push(owned("del-flows"));
        r.push(self.bridge_name.clone());
        r.push(build_flow_string(rule));
        assert(texts(r@) =~= seq!["del-flows"@, self.bridge_name@, flow_string(*rule)]);
        r
    }

    /// The arguments of `ovs-ofctl` that list the bridge's flows.
    pub fn dump_flows(&self) -> (r: Vec<String>)
        ensures
            texts(r@) == seq!["dump-flows"@, self.bridge_name@],
    {
        let mut r: Vec<String> = Vec::new();
        r.push(owned("dump-flows"));
        r.push(self.bridge_name.clone());
        assert(texts(r@) =~= seq!["dump-flows"@, self.bridge_name@]);
        r
    }

    /// The `ovs-ofctl` commands that add the rules, one per rule, in order; they are run in
    /// turn and the first that fails stops the rest.
    pub fn add_flows(&self, rules: &[FlowRule]) -> (r: Vec<Vec<String>>)
        ensures
            argvs(r@) == add_flow_plan(self.bridge_name@, rules@),
    {
        let mut out: Vec<Vec<String>> = Vec::new();
        let mut i: usize = 0;
        while i < rules.len()
            invariant
                i <= rules@.len(),
                out@.len() == i,
                argvs(out@) == add_flow_plan(self.bridge_name@, rules@.subrange(0, i as int)),
            decreases rules@.len() - i,
        {
            let ghost before = out@;
            let cmd = self.add_flow(&rules[i]);
            out.push(cmd);
            assert(argvs(out@) =~= add_flow_plan(self.bridge_name@, rules@.subrange(0, i + 1))) by {
                assert forall|k: int| 0 <= k < i implies #[trigger] argvs(out@)[k] == add_flow_plan(
                    self.bridge_name@,
                    rules@.subrange(0, i + 1),
                )[k] by {
                    assert(out@[k] == before[k]);
                    assert(argvs(before)[k] == add_flow_plan(self.bridge_name@, rules@.subrange(0, i as int))[k]);
                }
            }
            i = i + 1;
        }
        assert(rules@.subrange(0, rules@.len() as int) =~= rules@);
        out
    }

    /// Container-specific routing: traffic from `container_ip` is tagged with `register_id`
    /// in register 0 and sent to `container_port`.
    pub fn setup_container_routing(&self, container_ip: &str, container_port: &str, register_id: u32) -> (r: Vec<Vec<String>>)
        ensures
            argvs(r@) == seq![add_flow_argv(self.bridge_name@, container_flow(container_ip@, container_port@, register_id))],
    {
        let mut field = String::new();
        push_decimal(&mut field, register_id as u64);
        push_str(&mut field, "->reg0");
        assert(("set_field:"@ + field@) =~= "set_field:"@ + dec(register_id as nat) + "->reg0"@);
        let mut matches: Vec<FlowMatch> = Vec::new();
        matches.push(FlowMatch::IpSrc(owned(container_ip)));
        let mut actions: Vec<FlowAction> = Vec::new();
        actions.push(FlowAction::SetField(field));
        actions.push(FlowAction::Output(owned(container_port)));
        let mut comment = owned("Container ");
        push_str(&mut comment, container_ip);
        push_str(&mut comment, " routing via register ");
        push_decimal(&mut comment, register_id as u64);
        let rule = FlowRule { priority: FlowPriority::ContainerSpecific, matches, actions, comment };
        proof {
            lemma_actions_two(rule.actions@);
            lemma_matches_one(rule.matches@);
            assert(actions_texts(rule.actions@) =~= seq!["set_field:"@ + dec(register_id as nat) + "->reg0"@, a_output(container_port@)]);
            assert(flow_string(rule) == container_flow(container_ip@, container_port@, register_id));
        }
        let mut rules: Vec<FlowRule> = Vec::new();
        rules.push(rule);
        let r = self.add_flows(rules.as_slice());
        assert(argvs(r@) =~= seq![add_flow_argv(self.bridge_name@, container_flow(container_ip@, container_port@, register_id))]) by {
            assert(add_flow_plan(self.bridge_name@, rules@)[0] == add_flow_argv(self.bridge_name@, flow_string(rules@[0])));
        }
        r
    }
}

proof fn lemma_matches_one(ms: Seq<FlowMatch>)
    requires
        ms.len() == 1,
    ensures
        matches_texts(ms) == seq![match_text(ms[0])],
{
    assert(ms.drop_last() =~= Seq::<FlowMatch>::empty());
    assert(ms.last() == ms[0]);
    assert(matches_texts(ms.drop_last()) =~= Seq::<Seq<char>>::empty());
    assert(matches_texts(ms) =~= seq![match_text(ms[0])]);
}

proof fn lemma_actions_two(acts: Seq<FlowAction>)
    requires
        acts.len() == 2,
    ensures
        actions_texts(acts) == action_texts(acts[0]) + action_texts(acts[1]),
{
    assert(acts.drop_last().drop_last() =~= Seq::<FlowAction>::empty());
    assert(acts.drop_last() =~= seq![acts[0]]);
    assert(actions_texts(seq![acts[0]]) =~= action_texts(acts[0])) by {
        assert(seq![acts[0]].drop_last() =~= Seq::<FlowAction>::empty());
        assert(seq![acts[0]].last() == acts[0]);
        assert(actions_texts(Seq::<FlowAction>::empty()) =~= Seq::<Seq<char>>::empty());
    }
    assert(acts.last() == acts[1]);
}


proof fn lemma_matches_map(ms: Seq<FlowMatch>)
    ensures
        matches_texts(ms) == Seq::new(ms.len(), |i: int| match_text(ms[i])),
    decreases ms.len(),
{
    if ms.len() > 0 {
        lemma_matches_map(ms.drop_last());
    }
    assert(matches_texts(ms) =~= Seq::new(ms.len(), |i: int| match_text(ms[i])));
}

proof fn lemma_actions_one(acts: Seq<FlowAction>)
    requires
        acts.len() == 1,
    ensures
        actions_texts(acts) == action_texts(acts[0]),
{
    assert(acts.drop_last() =~= Seq::<FlowAction>::empty());
    assert(acts.last() == acts[0]);
    assert(actions_texts(Seq::<FlowAction>::empty()) =~= Seq::<Seq<char>>::empty());
    assert(actions_texts(acts) =~= action_texts(acts[0]));
}

/// A rule with the given parts.
fn rule(priority: FlowPriority, matches: Vec<FlowMatch>, actions: Vec<FlowAction>, comment: String) -> (r: FlowRule)
    ensures
        r.priority == priority,
        r.matches@ == matches@,
        r.actions@ == actions@,
        r.comment@ == comment@,
{
    FlowRule { priority, matches, actions, comment }
}

fn text_with(a: &str, b: &str) -> (r: String)
    ensures
        r@ == a@ + b@,
{
    let mut s = owned(a);
    push_str(&mut s, b);
    s
}

/// The HTTP, HTTPS and SSH rules of application-aware routing.
pub open spec fn application_flows(port: Seq<char>) -> Seq<Seq<char>> {
    seq![
        one_match_flow(350, m_tcp_dst(80), seq![a_set_queue(1), a_output(port)]),
        one_match_flow(350, m_tcp_dst(443), seq![a_set_queue(1), a_output(port)]),
        one_match_flow(350, m_tcp_dst(22), seq![a_set_queue(0), a_output(port)]),
    ]
}

/// The DNS and HTTPS rules of privacy routing.
pub open spec fn privacy_flows(dns_port: Seq<char>, https_port: Seq<char>) -> Seq<Seq<char>> {
    seq![
        one_match_flow(300, m_udp_dst(53), seq![a_output(dns_port)]),
        one_match_flow(300, m_tcp_dst(443), seq![a_output(https_port)]),
    ]
}

/// The rules of the security policy: established connections go to the `allow` port, new
/// connections are dropped.
pub open spec fn security_flows() -> Seq<Seq<char>> {
    seq![
        one_match_flow(200, "ct_state=+est"@, seq![a_output("allow"@)]),
        one_match_flow(200, "ct_state=-est"@, seq!["drop"@]),
    ]
}

/// The four rules of basic routing between the container network and the physical port.
pub open spec fn basic_flows(net: Seq<char>, phys: Seq<char>, internal: Seq<char>) -> Seq<Seq<char>> {
    seq![
        flow_text(0, seq![m_in_port(internal), m_ip_src(net)], seq![a_output(phys)]),
        flow_text(0, seq![m_in_port(phys), m_ip_dst(net)], seq![a_output(internal)]),
        flow_text(350, seq![m_in_port(internal), m_ip_src(net), m_ip_dst(net)], seq![a_output(internal)]),
        flow_text(0, Seq::empty(), seq!["NORMAL"@]),
    ]
}

/// The `add-flow` commands of a list of flows.
pub open spec fn add_flow_argvs(bridge: Seq<char>, flows: Seq<Seq<char>>) -> Seq<Seq<Seq<char>>> {
    Seq::new(flows.len(), |i: int| add_flow_argv(bridge, flows[i]))
}

impl OvsFlowManager {
    /// Application-aware routing: HTTP and HTTPS through queue 1, SSH through queue 0, all to
    /// `output_port`.
    pub fn setup_application_routing(&self, output_port: &str) -> (r: Vec<Vec<String>>)
        ensures
            argvs(r@) == add_flow_argvs(self.bridge_name@, application_flows(output_port@)),
    {
        let mut rules: Vec<FlowRule> = Vec::new();
        let ports: [u16; 3] = [80, 443, 22];
        let queues: [u32; 3] = [1, 1, 0];
        let mut k: usize = 0;
        while k < 3
            invariant
                k <= 3,
                ports@ == seq![80u16, 443u16, 22u16],
                queues@ == seq![1u32, 1u32, 0u32],
                rules@.len() == k,
                forall|j: int| 0 <= j < k ==> flow_string(#[trigger] rules@[j]) == application_flows(output_port@)[j],
            decreases 3 - k,
        {
            let mut ms: Vec<FlowMatch> = Vec::new();
            ms.push(FlowMatch::TcpDst(ports[k]));
            let mut acts: Vec<FlowAction> = Vec::new();
            acts.push(FlowAction::OutputWithQueue(owned(output_port), queues[k]));
            let comment = if k == 0 {
                owned("HTTP traffic priority routing")
            } else if k == 1 {
                owned("HTTPS traffic priority routing")
            } else {
                owned("SSH traffic normal routing")
            };
            let r = rule(FlowPriority::ApplicationAware, ms, acts, comment);
            proof {
                lemma_matches_map(r.matches@);
                lemma_actions_one(r.actions@);
                assert(matches_texts(r.matches@) =~= seq![m_tcp_dst(ports@[k as int])]);
            }
            rules.push(r);
            k = k + 1;
        }
        let out = self.add_flows(rules.as_slice());
        assert(argvs(out@) =~= add_flow_argvs(self.bridge_name@, application_flows(output_port@)));
        out
    }

    /// Privacy routing: DNS to `dns_port`, HTTPS to `https_port`.
    pub fn setup_privacy_routing(&self, dns_port: &str, https_port: &str) -> (r: Vec<Vec<String>>)
        ensures
            argvs(r@) == add_flow_argvs(self.bridge_name@, privacy_flows(dns_port@, https_port@)),
    {
        let mut m1: Vec<FlowMatch> = Vec::new();
        m1.push(FlowMatch::UdpDst(53));
        let mut a1: Vec<FlowAction> = Vec::new();
        a1.push(FlowAction::Output(owned(dns_port)));
        let r1 = rule(FlowPriority::PrivacyRouting, m1, a1, owned("DNS privacy routing"));
        let mut m2: Vec<FlowMatch> = Vec::new();
        m2.push(FlowMatch::TcpDst(443));
        let mut a2: Vec<FlowAction> = Vec::new();
        a2.push(FlowAction::Output(owned(https_port)));
        let r2 = rule(FlowPriority::PrivacyRouting, m2, a2, owned("HTTPS privacy routing"));
        proof {
            lemma_matches_map(r1.matches@);
            lemma_actions_one(r1.actions@);
            lemma_matches_map(r2.matches@);
            lemma_actions_one(r2.actions@);
            assert(matches_texts(r1.matches@) =~= seq![m_udp_dst(53)]);
            assert(matches_texts(r2.matches@) =~= seq![m_tcp_dst(443)]);
        }
        let mut rules: Vec<FlowRule> = Vec::new();
        rules.push(r1);
        rules.push(r2);
        let out = self.add_flows(rules.as_slice());
        assert(argvs(out@) =~= add_flow_argvs(self.bridge_name@, privacy_flows(dns_port@, https_port@)));
        out
    }

    /// Geographic routing: traffic to `cidr` goes to `output_port`.
    pub fn setup_geographic_routing(&self, cidr: &str, output_port: &str) -> (r: Vec<Vec<String>>)
        ensures
            argvs(r@) == add_flow_argvs(
                self.bridge_name@,
                seq![one_match_flow(250, m_ip_dst(cidr@), seq![a_output(output_port@)])],
            ),
    {
        let mut m: Vec<FlowMatch> = Vec::new();
        m.push(FlowMatch::IpDst(owned(cidr)));
        let mut a: Vec<FlowAction> = Vec::new();
        a.push(FlowAction::Output(owned(output_port)));
        let r1 = rule(FlowPriority::GeographicRouting, m, a, text_with("Geographic routing for ", cidr));
        proof {
            lemma_matches_map(r1.matches@);
            lemma_actions_one(r1.actions@);
            assert(matches_texts(r1.matches@) =~= seq![m_ip_dst(cidr@)]);
        }
        let mut rules: Vec<FlowRule> = Vec::new();
        rules.push(r1);
        let out = self.add_flows(rules.as_slice());
        assert(argvs(out@) =~= add_flow_argvs(
            self.bridge_name@,
            seq![one_match_flow(250, m_ip_dst(cidr@), seq![a_output(output_port@)])],
        ));
        out
    }

    /// The security policy: established connections are sent to the `allow` port (a port
    /// name, as OpenFlow has no allow action), new connections are dropped.
    pub fn setup_security_policies(&self) -> (r: Vec<Vec<String>>)
        ensures
            argvs(r@) == add_flow_argvs(self.bridge_name@, security_flows()),
    {
        let mut m1: Vec<FlowMatch> = Vec::new();
        m1.push(FlowMatch::Established);
        let mut a1: Vec<FlowAction> = Vec::new();
        a1.push(FlowAction::Output(owned("allow")));
        let r1 = rule(FlowPriority::SecurityPolicy, m1, a1, owned("Allow established connections"));
        let mut m2: Vec<FlowMatch> = Vec::new();
        m2.push(FlowMatch::NewConnection);
        let mut a2: Vec<FlowAction> = Vec::new();
        a2.push(FlowAction::Drop);
        let r2 = rule(FlowPriority::SecurityPolicy, m2, a2, owned("Drop new connections by default"));
        proof {
            lemma_matches_map(r1.matches@);
            lemma_actions_one(r1.actions@);
            lemma_matches_map(r2.matches@);
            lemma_actions_one(r2.actions@);
            assert(matches_texts(r1.matches@) =~= seq!["ct_state=+est"@]);
            assert(matches_texts(r2.matches@) =~= seq!["ct_state=-est"@]);
        }
        let mut rules: Vec<FlowRule> = Vec::new();
        rules.push(r1);
        rules.push(r2);
        let out = self.add_flows(rules.as_slice());
        assert(argvs(out@) =~= add_flow_argvs(self.bridge_name@, security_flows()));
        out
    }

    /// DDoS protection: traffic from `suspicious_cidr` is rate limited to `rate_limit`.
    pub fn setup_ddos_protection(&self, suspicious_cidr: &str, rate_limit: u32) -> (r: Vec<Vec<String>>)
        ensures
            argvs(r@) == add_flow_argvs(
                self.bridge_name@,
                seq![one_match_flow(150, m_ip_src(suspicious_cidr@), seq!["set_field:"@ + dec(rate_limit as nat) + "->rate"@])],
            ),
    {
        let mut m: Vec<FlowMatch> = Vec::new();
        m.push(FlowMatch::IpSrc(owned(suspicious_cidr)));
        let mut a: Vec<FlowAction> = Vec::new();
        a.push(FlowAction::RateLimit(rate_limit));
        let r1 = rule(FlowPriority::DdosProtection, m, a, text_with("DDoS protection for ", suspicious_cidr));
        proof {
            lemma_matches_map(r1.matches@);
            lemma_actions_one(r1.actions@);
            assert(matches_texts(r1.matches@) =~= seq![m_ip_src(suspicious_cidr@)]);
        }
        let mut rules: Vec<FlowRule> = Vec::new();
        rules.push(r1);
        let out = self.add_flows(rules.as_slice());
        assert(argvs(out@) =~= add_flow_argvs(
            self.bridge_name@,
            seq![one_match_flow(150, m_ip_src(suspicious_cidr@), seq!["set_field:"@ + dec(rate_limit as nat) + "->rate"@])],
        ));
        out
    }

    /// VLAN isolation: traffic of `vlan_id` goes to `output_port` through `queue_id`.
    pub fn setup_vlan_isolation(&self, vlan_id: u16, queue_id: u32, output_port: &str) -> (r: Vec<Vec<String>>)
        ensures
            argvs(r@) == add_flow_argvs(
                self.bridge_name@,
                seq![one_match_flow(180, "dl_vlan="@ + dec(vlan_id as nat), seq![a_set_queue(queue_id), a_output(output_port@)])],
            ),
    {
        let mut m: Vec<FlowMatch> = Vec::new();
        m.push(FlowMatch::Vlan(vlan_id));
        let mut a: Vec<FlowAction> = Vec::new();
        a.push(FlowAction::OutputWithQueue(owned(output_port), queue_id));
        let mut comment = owned("VLAN ");
        push_decimal(&mut comment, vlan_id as u64);
        push_str(&mut comment, " isolation with QoS");
        let r1 = rule(FlowPriority::VlanIsolation, m, a, comment);
        proof {
            lemma_matches_map(r1.matches@);
            lemma_actions_one(r1.actions@);
            assert(matches_texts(r1.matches@) =~= seq!["dl_vlan="@ + dec(vlan_id as nat)]);
        }
        let mut rules: Vec<FlowRule> = Vec::new();
        rules.push(r1);
        let out = self.add_flows(rules.as_slice());
        assert(argvs(out@) =~= add_flow_argvs(
            self.bridge_name@,
            seq![one_match_flow(180, "dl_vlan="@ + dec(vlan_id as nat), seq![a_set_queue(queue_id), a_output(output_port@)])],
        ));
        out
    }

    /// The privacy tunnel for a kind of application traffic.
    pub fn route_privacy_traffic(&self, packet_app: Application) -> (r: PrivacyPath)
        ensures
            r == (match packet_app {
                Application::Tor | Application::Signal | Application::Anonymous => PrivacyPath::XrayReality,
                Application::Browser => PrivacyPath::Warp,
                Application::Streaming | Application::General => PrivacyPath::WireGuard,
            }),
    {
        match packet_app {
            Application::Tor | Application::Signal => PrivacyPath::XrayReality,
            Application::Browser => PrivacyPath::Warp,
            Application::Streaming => PrivacyPath::WireGuard,
            Application::Anonymous => PrivacyPath::XrayReality,
            Application::General => PrivacyPath::WireGuard,
        }
    }

    /// Basic routing between the container network behind `internal_port` and
    /// `physical_interface`, local traffic kept inside, everything else `NORMAL`.
    pub fn setup_basic_routing(&self, container_network: &str, physical_interface: &str, internal_port: &str) -> (r: Vec<Vec<String>>)
        ensures
            argvs(r@) == add_flow_argvs(
                self.bridge_name@,
                basic_flows(container_network@, physical_interface@, internal_port@),
            ),
    {
        let net = container_network;
        let phys = physical_interface;
        let internal = internal_port;
        let mut m1: Vec<FlowMatch> = Vec::new();
        m1.push(FlowMatch::InPort(owned(internal)));
        m1.push(FlowMatch::IpSrc(owned(net)));
        let mut a1: Vec<FlowAction> = Vec::new();
        a1.push(FlowAction::Output(owned(phys)));
        let mut c1 = text_with("Container ", net);
        push_str(&mut c1, " -> physical ");
        push_str(&mut c1, phys);
        let r1 = rule(FlowPriority::Default, m1, a1, c1);
        let mut m2: Vec<FlowMatch> = Vec::new();
        m2.push(FlowMatch::InPort(owned(phys)));
        m2.push(FlowMatch::IpDst(owned(net)));
        let mut a2: Vec<FlowAction> = Vec::new();
        a2.push(FlowAction::Output(owned(internal)));
        let mut c2 = text_with("Physical ", phys);
        push_str(&mut c2, " -> container ");
        push_str(&mut c2, net);
        let r2 = rule(FlowPriority::Default, m2, a2, c2);
        let mut m3: Vec<FlowMatch> = Vec::new();
        m3.push(FlowMatch::InPort(owned(internal)));
        m3.push(FlowMatch::IpSrc(owned(net)));
        m3.push(FlowMatch::IpDst(owned(net)));
        let mut a3: Vec<FlowAction> = Vec::new();
        a3.push(FlowAction::Output(owned(internal)));
        let r3 = rule(FlowPriority::ApplicationAware, m3, a3, owned("Local container network traffic"));
        let m4: Vec<FlowMatch> = Vec::new();
        let mut a4: Vec<FlowAction> = Vec::new();
        a4.push(FlowAction::Normal);
        let r4 = rule(FlowPriority::Default, m4, a4, owned("Default NORMAL action"));
        proof {
            lemma_matches_map(r1.matches@);
            lemma_matches_map(r2.matches@);
            lemma_matches_map(r3.matches@);
            lemma_matches_map(r4.matches@);
            lemma_actions_one(r1.actions@);
            lemma_actions_one(r2.actions@);
            lemma_actions_one(r3.actions@);
            lemma_actions_one(r4.actions@);
            assert(matches_texts(r1.matches@) =~= seq![m_in_port(internal@), m_ip_src(net@)]);
            assert(matches_texts(r2.matches@) =~= seq![m_in_port(phys@), m_ip_dst(net@)]);
            assert(matches_texts(r3.matches@) =~= seq![m_in_port(internal@), m_ip_src(net@), m_ip_dst(net@)]);
            assert(matches_texts(r4.matches@) =~= Seq::<Seq<char>>::empty());
        }
        let mut rules: Vec<FlowRule> = Vec::new();
        rules.push(r1);
        rules.push(r2);
        rules.push(r3);
        rules.push(r4);
        let out = self.add_flows(rules.as_slice());
        assert(argvs(out@) =~= add_flow_argvs(self.bridge_name@, basic_flows(net@, phys@, internal@)));
        out
    }

    /// The flow rules of a container: its traffic tagged and sent to its port, with HTTP
    /// through queue 1 and SSH through queue 0.
    pub fn generate_container_flows(&self, container_ip: &str, container_port: u16) -> (r: Vec<FlowRule>)
        ensures
            r@.len() == 3,
            flow_string(r@[0]) == one_match_flow(
                400,
                m_ip_src(container_ip@),
                seq!["set_field:1->reg0"@, a_output(dec(container_port as nat))],
            ),
            flow_string(r@[1]) == flow_text(
                350,
                seq![m_ip_src(container_ip@), m_tcp_dst(80)],
                seq![a_set_queue(1), a_output(dec(container_port as nat))],
            ),
            flow_string(r@[2]) == flow_text(
                350,
                seq![m_ip_src(container_ip@), m_tcp_dst(22)],
                seq![a_set_queue(0), a_output(dec(container_port as nat))],
            ),
            r@[0].priority == FlowPriority::ContainerSpecific,
            r@[0].matches@.len() == 1 && is_ip_src(r@[0].matches@[0], container_ip@),
            r@[0].actions@.len() == 2 && is_set_field(r@[0].actions@[0], "1->reg0"@) && is_output(
                r@[0].actions@[1],
                dec(container_port as nat),
            ),
            r@[0].comment@ == "Container "@ + container_ip@ + " routing"@,
            r@[1].priority == FlowPriority::ApplicationAware,
            r@[1].matches@.len() == 2 && is_ip_src(r@[1].matches@[0], container_ip@) && is_tcp_dst(r@[1].matches@[1], 80),
            r@[1].actions@.len() == 2 && is_set_queue(r@[1].actions@[0], 1) && is_output(
                r@[1].actions@[1],
                dec(container_port as nat),
            ),
            r@[1].comment@ == "Container "@ + container_ip@ + " HTTP priority"@,
            r@[2].priority == FlowPriority::ApplicationAware,
            r@[2].matches@.len() == 2 && is_ip_src(r@[2].matches@[0], container_ip@) && is_tcp_dst(r@[2].matches@[1], 22),
            r@[2].actions@.len() == 2 && is_set_queue(r@[2].actions@[0], 0) && is_output(
                r@[2].actions@[1],
                dec(container_port as nat),
            ),
            r@[2].comment@ == "Container "@ + container_ip@ + " SSH normal"@,
    {
        let mut port = String::new();
        push_decimal(&mut port, container_port as u64);
        assert(port@ =~= dec(container_port as nat));
        let mut m1: Vec<FlowMatch> = Vec::new();
        m1.push(FlowMatch::IpSrc(owned(container_ip)));
        let mut a1: Vec<FlowAction> = Vec::new();
        a1.push(FlowAction::SetField(owned("1->reg0")));
        a1.push(FlowAction::Output(port.clone()));
        let mut c1 = text_with("Container ", container_ip);
        push_str(&mut c1, " routing");
        let r1 = rule(FlowPriority::ContainerSpecific, m1, a1, c1);
        let mut m2: Vec<FlowMatch> = Vec::new();
        m2.push(FlowMatch::IpSrc(owned(container_ip)));
        m2.push(FlowMatch::TcpDst(80));
        let mut a2: Vec<FlowAction> = Vec::new();
        a2.push(FlowAction::SetQueue(1));
        a2.push(FlowAction::Output(port.clone()));
        let mut c2 = text_with("Container ", container_ip);
        push_str(&mut c2, " HTTP priority");
        let r2 = rule(FlowPriority::ApplicationAware, m2, a2, c2);
        let mut m3: Vec<FlowMatch> = Vec::new();
        m3.push(FlowMatch::IpSrc(owned(container_ip)));
        m3.push(FlowMatch::TcpDst(22));
        let mut a3: Vec<FlowAction> = Vec::new();
        a3.push(FlowAction::SetQueue(0));
        a3.push(FlowAction::Output(port));
        let mut c3 = text_with("Container ", container_ip);
        push_str(&mut c3, " SSH normal");
        let r3 = rule(FlowPriority::ApplicationAware, m3, a3, c3);
        proof {
            reveal_strlit("1->reg0");
            reveal_strlit("set_field:");
            reveal_strlit("set_field:1->reg0");
            lemma_matches_map(r1.matches@);
            lemma_matches_map(r2.matches@);
            lemma_matches_map(r3.matches@);
            lemma_actions_two(r1.actions@);
            lemma_actions_two(r2.actions@);
            lemma_actions_two(r3.actions@);
            assert(matches_texts(r1.matches@) =~= seq![m_ip_src(container_ip@)]);
            assert(matches_texts(r2.matches@) =~= seq![m_ip_src(container_ip@), m_tcp_dst(80)]);
            assert(matches_texts(r3.matches@) =~= seq![m_ip_src(container_ip@), m_tcp_dst(22)]);
            assert(("set_field:"@ + "1->reg0"@) =~= "set_field:1->reg0"@);
            assert(actions_texts(r1.actions@) =~= seq!["set_field:1->reg0"@, a_output(dec(container_port as nat))]);
            assert(actions_texts(r2.actions@) =~= seq![a_set_queue(1), a_output(dec(container_port as nat))]);
            assert(actions_texts(r3.actions@) =~= seq![a_set_queue(0), a_output(dec(container_port as nat))]);
        }
        let mut rules: Vec<FlowRule> = Vec::new();
        rules.push(r1);
        rules.push(r2);
        rules.push(r3);
        rules
    }
}

} // verus!
