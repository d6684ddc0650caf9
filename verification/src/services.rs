//! The agent's services: the ledger status service, bridge checks and operations, the
//! system network state read from command output, and container port management.
use vstd::prelude::*;
use vstd::string::*;
use crate::text::{owned, push_str, push_decimal, dec, texts, same_text};
use crate::json::Json;
use crate::lines::{lines, split_on, trim, text_lines, split_char, trim_text};
use crate::interfaces::{find, find_chars};
use crate::error::Error;
use crate::networkd::{bridge_member_name, get_bridge_ports, get_bridge_interfaces};

verus! {

/// The note every ledger status answer carries.
pub open spec fn ledger_note() -> Seq<char> {
    "Ledger functionality replaced with streaming blockchain"@
}

/// The status every ledger status answer carries.
pub open spec fn ledger_status() -> Seq<char> {
    "streaming_blockchain_active"@
}

/// Answers questions about the ledger with its status (blocks now go to the streaming
/// chain); every answer is a JSON object, members in key order.
pub struct BlockchainService {
    pub ledger_path: String,
}

/// A JSON member named `key` whose value is the text `value`.
pub open spec fn text_member(m: (String, Json), key: Seq<char>, value: Seq<char>) -> bool {
    m.0@ == key && (m.1 matches Json::Str(v) && v@ == value)
}

/// A JSON member named `key` whose value is the number written `digits`.
pub open spec fn number_member(m: (String, Json), key: Seq<char>, digits: Seq<char>) -> bool {
    m.0@ == key && (m.1 matches Json::Number(v) && v@ == digits)
}

/// A ledger status answer: an object of the member `first`, then the note and the status.
pub open spec fn status_answer(j: Json, key: Seq<char>, value: Seq<char>) -> bool {
    j matches Json::Object(ms) && ms@.len() == 3 && text_member(ms@[0], key, value) && text_member(
        ms@[1],
        "note"@,
        ledger_note(),
    ) && text_member(ms@[2], "status"@, ledger_status())
}

fn text_json(k: &str, v: &str) -> (r: (String, Json))
    ensures
        text_member(r, k@, v@),
{
    (owned(k), Json::Str(owned(v)))
}

fn status_members(key: &str, value: &str) -> (r: Json)
    ensures
        status_answer(r, key@, value@),
{
    let mut ms: Vec<(String, Json)> = Vec::new();
    ms.push(text_json(key, value));
    ms.push(text_json("note", "Ledger functionality replaced with streaming blockchain"));
    ms.push(text_json("status", "streaming_blockchain_active"));
    proof {
        reveal_strlit("Ledger functionality replaced with streaming blockchain");
        reveal_strlit("streaming_blockchain_active");
    }
    Json::Object(ms)
}

impl BlockchainService {
    /// A service for the ledger at `ledger_path`.
    pub fn new(ledger_path: String) -> (r: BlockchainService)
        ensures
            r.ledger_path@ == ledger_path@,
    {
        BlockchainService { ledger_path }
    }

    /// The ledger's statistics: its path and status.
    pub fn get_stats(&self) -> (r: Result<Json, Error>)
        ensures
            r matches Ok(j) && status_answer(j, "ledger_path"@, self.ledger_path@),
    {
        Ok(status_members("ledger_path", self.ledger_path.as_str()))
    }

    /// The answer to a chain verification: the ledger's path and status.
    pub fn verify_chain(&self) -> (r: Result<Json, Error>)
        ensures
            r matches Ok(j) && status_answer(j, "ledger_path"@, self.ledger_path@),
    {
        Ok(status_members("ledger_path", self.ledger_path.as_str()))
    }

    /// The answer to a query by category.
    pub fn get_blocks_by_category(&self, category: &str) -> (r: Result<Json, Error>)
        ensures
            r matches Ok(j) && status_answer(j, "category"@, category@),
    {
        Ok(status_members("category", category))
    }

    /// The answer to a query by height range; a range that starts after it ends is refused.
    pub fn get_blocks_by_height(&self, start: u64, end: u64) -> (r: Result<Json, Error>)
        ensures
            start > end ==> (r matches Err(Error::Blockchain(m)) && m@ == "Invalid height range: start ("@ + dec(
                start as nat,
            ) + ") > end ("@ + dec(end as nat) + ")"@),
            start <= end ==> (r matches Ok(Json::Object(ms)) && ms@.len() == 4 && number_member(
                ms@[0],
                "end_height"@,
                dec(end as nat),
            ) && text_member(ms@[1], "note"@, ledger_note()) && number_member(
                ms@[2],
                "start_height"@,
                dec(start as nat),
            ) && text_member(ms@[3], "status"@, ledger_status())),
    {
        if start > end {
            let mut m = owned("Invalid height range: start (");
            push_decimal(&mut m, start);
            push_str(&mut m, ") > end (");
            push_decimal(&mut m, end);
            push_str(&mut m, ")");
            return Err(Error::Blockchain(m));
        }
        let mut s = String::new();
        push_decimal(&mut s, start);
        let mut e = String::new();
        push_decimal(&mut e, end);
        let mut ms: Vec<(String, Json)> = Vec::new();
        ms.push((owned("end_height"), Json::Number(e)));
        ms.push(text_json("note", "Ledger functionality replaced with streaming blockchain"));
        ms.push((owned("start_height"), Json::Number(s)));
        ms.push(text_json("status", "streaming_blockchain_active"));
        proof {
            reveal_strlit("Ledger functionality replaced with streaming blockchain");
            reveal_strlit("streaming_blockchain_active");
        }
        Ok(Json::Object(ms))
    }

    /// The answer to adding data: its category and action with the status.
    pub fn add_data(&self, category: &str, action: &str, data: Json) -> (r: Result<Json, Error>)
        ensures
            r matches Ok(Json::Object(ms)) && ms@.len() == 4 && text_member(ms@[0], "action"@, action@)
                && text_member(ms@[1], "category"@, category@) && text_member(ms@[2], "note"@, ledger_note())
                && text_member(ms@[3], "status"@, ledger_status()),
    {
        let mut ms: Vec<(String, Json)> = Vec::new();
        ms.push(text_json("action", action));
        ms.push(text_json("category", category));
        ms.push(text_json("note", "Ledger functionality replaced with streaming blockchain"));
        ms.push(text_json("status", "streaming_blockchain_active"));
        proof {
            reveal_strlit("Ledger functionality replaced with streaming blockchain");
            reveal_strlit("streaming_blockchain_active");
        }
        Ok(Json::Object(ms))
    }

    /// The answer to a query by block hash.
    pub fn get_block_by_hash(&self, hash: &str) -> (r: Result<Json, Error>)
        ensures
            r matches Ok(j) && status_answer(j, "hash"@, hash@),
    {
        Ok(status_members("hash", hash))
    }
}

/// Checks and operations on one systemd-networkd bridge.
pub struct BridgeService {
    pub bridge_name: String,
}

/// The outcome of a bridge connectivity check.
pub struct BridgeValidation {
    pub bridge_exists: bool,
    pub bridge_operational: bool,
    pub networkd_responsive: bool,
    /// Per bound interface, whether its binding is in place.
    pub bridge_synchronization: Vec<(String, bool)>,
    pub connectivity_preserved: bool,
}

/// The atomic operations a bridge supports.
#[derive(PartialEq, Eq, Structural, Clone, Copy)]
pub enum AtomicOperation {
    CreateCheckpoint,
    ValidateTopology,
    ReloadNetworkd,
}

/// The operation an operation name selects.
pub open spec fn operation_named(op: Seq<char>) -> Option<AtomicOperation> {
    if op == "create_checkpoint"@ {
        Some(AtomicOperation::CreateCheckpoint)
    } else if op == "validate_topology"@ {
        Some(AtomicOperation::ValidateTopology)
    } else if op == "reload_networkd"@ {
        Some(AtomicOperation::ReloadNetworkd)
    } else {
        None
    }
}

/// Whether a link's operational state counts as up (`routable` or `carrier`).
pub open spec fn link_up(state: Seq<char>) -> bool {
    state == "routable"@ || state == "carrier"@
}

/// How many of the links are up.
pub open spec fn links_up(states: Seq<Seq<char>>) -> nat
    decreases states.len(),
{
    if states.len() == 0 {
        0
    } else {
        links_up(states.drop_last()) + (if link_up(states.last()) { 1nat } else { 0nat })
    }
}

impl BridgeService {
    /// A service for `bridge_name`.
    pub fn new(bridge_name: String) -> (r: BridgeService)
        ensures
            r.bridge_name@ == bridge_name@,
    {
        BridgeService { bridge_name }
    }

    /// The operation named `operation`, or the refusal of an unknown name.
    pub fn atomic_operation(&self, operation: &str) -> (r: Result<AtomicOperation, Error>)
        ensures
            match operation_named(operation@) {
                Some(op) => r == Ok::<AtomicOperation, Error>(op),
                None => r matches Err(Error::Bridge(m)) && m@ == "Unknown atomic operation: "@ + operation@,
            },
    {
        if same_text(operation, "create_checkpoint") {
            Ok(AtomicOperation::CreateCheckpoint)
        } else if same_text(operation, "validate_topology") {
            Ok(AtomicOperation::ValidateTopology)
        } else if same_text(operation, "reload_networkd") {
            Ok(AtomicOperation::ReloadNetworkd)
        } else {
            let mut m = owned("Unknown atomic operation: ");
            push_str(&mut m, operation);
            Err(Error::Bridge(m))
        }
    }

    /// The report of a checkpoint made in `checkpoint_path`.
    pub fn checkpoint_report(checkpoint_path: &str) -> (r: String)
        ensures
            r@ == "Checkpoint created: "@ + checkpoint_path@,
    {
        let mut m = owned("Checkpoint created: ");
        push_str(&mut m, checkpoint_path);
        m
    }

    /// The report of a topology validation.
    pub fn topology_report(is_valid: bool) -> (r: String)
        ensures
            r@ == "Topology validation: "@ + (if is_valid { "PASSED"@ } else { "FAILED"@ }),
    {
        let mut m = owned("Topology validation: ");
        push_str(&mut m, if is_valid { "PASSED" } else { "FAILED" });
        m
    }

    /// A bridge's topology is valid when it exists, is operational and has a port.
    pub fn topology_valid(bridge_exists: bool, operational: bool, port_count: usize) -> (r: bool)
        ensures
            r == (bridge_exists && operational && port_count > 0),
    {
        bridge_exists && operational && port_count > 0
    }

    /// Connectivity is preserved when DNS answers, networkd answers, and (when the links
    /// could be listed) at least one link is up.
    pub fn connectivity_preserved(dns_ok: bool, networkd_ok: bool, link_states: Option<&Vec<String>>) -> (r: bool)
        ensures
            r == (dns_ok && networkd_ok && match link_states {
                Some(s) => links_up(texts(s@)) > 0,
                None => true,
            }),
    {
        match link_states {
            Some(states) => {
                let mut up = false;
                let mut i: usize = 0;
                while i < states.len()
                    invariant
                        i <= states@.len(),
                        up == (links_up(texts(states@.subrange(0, i as int))) > 0),
                    decreases states@.len() - i,
                {
                    let ghost pre = texts(states@.subrange(0, i as int));
                    let ghost post = texts(states@.subrange(0, i + 1));
                    assert(post.drop_last() =~= pre);
                    assert(post.last() == states@[i as int]@);
                    if same_text(states[i].as_str(), "routable") || same_text(states[i].as_str(), "carrier") {
                        up = true;
                    }
                    i = i + 1;
                }
                assert(states@.subrange(0, states@.len() as int) =~= states@);
                dns_ok && networkd_ok && up
            },
            None => dns_ok && networkd_ok,
        }
    }
}

/// What networkd reports about itself.
pub struct NetworkdState {
    pub version: String,
    pub state: String,
    pub connectivity: String,
    pub active_connections: u32,
    pub total_connections: u32,
    pub devices: u32,
}

/// An OVS bridge as observed.
pub struct OVSBridgeState {
    pub name: String,
    pub ports: Vec<String>,
    pub interfaces: Vec<String>,
    pub active: bool,
    pub datapath_type: String,
}

/// Whether the host is connected.
pub struct ConnectivityStatus {
    pub internet_reachable: bool,
    pub dns_working: bool,
    pub default_route: String,
    pub uplink_status: String,
}

/// Reads the system's network state out of command output.
pub struct NetworkStateService;

/// A command's output trimmed, or `unknown` when the command failed.
pub open spec fn trimmed_or_unknown(o: Option<Seq<char>>) -> Seq<char> {
    match o {
        Some(s) => trim(s),
        None => "unknown"@,
    }
}

/// The number of lines of a command's output (0 when the command failed), as a `u32`
/// (cut to its low 32 bits).
pub open spec fn line_count(o: Option<Seq<char>>) -> u32 {
    match o {
        Some(s) => (lines(s).len() as int % 0x1_0000_0000) as u32,
        None => 0,
    }
}

/// The view of an optional string.
pub open spec fn opt_text(o: Option<String>) -> Option<Seq<char>> {
    match o {
        Some(s) => Some(s@),
        None => None,
    }
}

fn trimmed_or_unknown_exec(o: &Option<String>) -> (r: String)
    ensures
        r@ == trimmed_or_unknown(opt_text(*o)),
{
    match o {
        Some(s) => trim_text(s.as_str()),
        None => owned("unknown"),
    }
}

fn line_count_exec(o: &Option<String>) -> (r: u32)
    ensures
        r == line_count(opt_text(*o)),
{
    match o {
        Some(s) => {
            let n = text_lines(s.as_str()).len();
            let m: u64 = (n as u64) % 0x1_0000_0000;
            assert(m as int == n as int % 0x1_0000_0000);
            m as u32
        },
        None => 0,
    }
}

/// The names of a list, trimmed, blank ones left out.
pub open spec fn nonblank_trimmed(ns: Seq<Seq<char>>) -> Seq<Seq<char>>
    decreases ns.len(),
{
    if ns.len() == 0 {
        Seq::empty()
    } else if trim(ns.last()).len() > 0 {
        nonblank_trimmed(ns.drop_last()).push(trim(ns.last()))
    } else {
        nonblank_trimmed(ns.drop_last())
    }
}

/// The state of the bridge `name` in `NAME,STATE` connection lines: whether the state of the
/// first line naming it contains `activated` (false when no line names it).
pub open spec fn bridge_active_in(ls: Seq<Seq<char>>, name: Seq<char>) -> bool
    decreases ls.len(),
{
    if ls.len() == 0 {
        false
    } else {
        let parts = split_on(ls[0], ':');
        if parts.len() >= 2 && parts[0] == name {
            find(parts[1], "activated"@) is Some
        } else {
            bridge_active_in(ls.subrange(1, ls.len() as int), name)
        }
    }
}

/// The state of the first device other than `lo` in `DEVICE,STATE` lines, `unknown` when
/// there is none.
pub open spec fn uplink_state_in(ls: Seq<Seq<char>>) -> Seq<char>
    decreases ls.len(),
{
    if ls.len() == 0 {
        "unknown"@
    } else {
        let parts = split_on(ls[0], ':');
        if parts.len() >= 2 && parts[0] != "lo"@ {
            parts[1]
        } else {
            uplink_state_in(ls.subrange(1, ls.len() as int))
        }
    }
}

impl NetworkStateService {
    /// The service.
    pub fn new() -> (r: NetworkStateService) {
        NetworkStateService
    }

    /// networkd's state from the outputs of `networkctl --version`, the `STATE` and
    /// `CONNECTIVITY` of `networkctl general`, `networkctl list`, the connection list and the
    /// device status (`None` for a command that failed).
    pub fn networkd_state(
        &self,
        version: &Option<String>,
        state: &Option<String>,
        connectivity: &Option<String>,
        links: &Option<String>,
        connections: &Option<String>,
        devices: &Option<String>,
    ) -> (r: NetworkdState)
        ensures
            r.version@ == trimmed_or_unknown(opt_text(*version)),
            r.state@ == trimmed_or_unknown(opt_text(*state)),
            r.connectivity@ == trimmed_or_unknown(opt_text(*connectivity)),
            r.active_connections == line_count(opt_text(*links)),
            r.total_connections == line_count(opt_text(*connections)),
            r.devices == line_count(opt_text(*devices)),
    {
        NetworkdState {
            version: trimmed_or_unknown_exec(version),
            state: trimmed_or_unknown_exec(state),
            connectivity: trimmed_or_unknown_exec(connectivity),
            active_connections: line_count_exec(links),
            total_connections: line_count_exec(connections),
            devices: line_count_exec(devices),
        }
    }

    /// Whether `networkctl -t -f NAME,STATE connection show` output shows the bridge active.
    pub fn bridge_active(output: &str, bridge: &str) -> (r: bool)
        ensures
            r == bridge_active_in(lines(output@), bridge@),
    {
        let ls = text_lines(output);
        let pat = crate::text::chars_of("activated");
        let mut i: usize = 0;
        assert(lines(output@).subrange(0, lines(output@).len() as int) =~= lines(output@));
        while i < ls.len()
            invariant
                i <= ls@.len(),
                pat@ == "activated"@,
                texts(ls@) == lines(output@),
                bridge_active_in(lines(output@), bridge@) == bridge_active_in(
                    lines(output@).subrange(i as int, lines(output@).len() as int),
                    bridge@,
                ),
            decreases ls@.len() - i,
        {
            let ghost rest = lines(output@).subrange(i as int, lines(output@).len() as int);
            assert(rest[0] == ls@[i as int]@);
            assert(rest.subrange(1, rest.len() as int) =~= lines(output@).subrange(i + 1, lines(output@).len() as int));
            let parts = split_char(ls[i].as_str(), ':');
            if parts.len() >= 2 && same_text(parts[0].as_str(), bridge) {
                assert(texts(parts@)[0] == parts@[0]@);
                assert(texts(parts@)[1] == parts@[1]@);
                let cs = crate::text::chars_of(parts[1].as_str());
                return find_chars(&cs, &pat, 0).is_some();
            }
            proof {
                if parts@.len() >= 2 {
                    assert(texts(parts@)[0] == parts@[0]@);
                }
            }
            i = i + 1;
        }
        assert(lines(output@).subrange(i as int, lines(output@).len() as int) =~= Seq::<Seq<char>>::empty());
        false
    }

    /// The uplink's state from `networkctl -t -f DEVICE,STATE device status` output.
    pub fn uplink_status(output: &str) -> (r: String)
        ensures
            r@ == uplink_state_in(lines(output@)),
    {
        proof {
            reveal_strlit("lo");
        }
        let ls = text_lines(output);
        let mut i: usize = 0;
        assert(lines(output@).subrange(0, lines(output@).len() as int) =~= lines(output@));
        while i < ls.len()
            invariant
                i <= ls@.len(),
                texts(ls@) == lines(output@),
                uplink_state_in(lines(output@)) == uplink_state_in(
                    lines(output@).subrange(i as int, lines(output@).len() as int),
                ),
            decreases ls@.len() - i,
        {
            let ghost rest = lines(output@).subrange(i as int, lines(output@).len() as int);
            assert(rest[0] == ls@[i as int]@);
            assert(rest.subrange(1, rest.len() as int) =~= lines(output@).subrange(i + 1, lines(output@).len() as int));
            let parts = split_char(ls[i].as_str(), ':');
            if parts.len() >= 2 && !same_text(parts[0].as_str(), "lo") {
                assert(texts(parts@)[0] == parts@[0]@);
                assert(texts(parts@)[1] == parts@[1]@);
                return parts[1].clone();
            }
            proof {
                if parts@.len() >= 2 {
                    assert(texts(parts@)[0] == parts@[0]@);
                }
            }
            i = i + 1;
        }
        assert(lines(output@).subrange(i as int, lines(output@).len() as int) =~= Seq::<Seq<char>>::empty());
        owned("unknown")
    }

    /// The OVS bridges named in `bridge_names` (the lines of `ovs-vsctl list-br`), blank
    /// names left out and the others trimmed: each with the ports and interfaces networkd
    /// reports for it, the `system` datapath, and active when the output of
    /// `networkctl -t -f NAME,STATE connection show` (`None` when the command failed) shows it
    /// activated.
    pub fn get_ovs_bridge_states(&self, bridge_names: &Vec<String>, connections: &Option<String>) -> (r: Vec<OVSBridgeState>)
        ensures
            r@.len() == nonblank_trimmed(texts(bridge_names@)).len(),
            forall|i: int| 0 <= i < r@.len() ==> {
                let n = nonblank_trimmed(texts(bridge_names@))[i];
                &&& (#[trigger] r@[i]).name@ == n
                &&& r@[i].ports@.len() == 0
                &&& texts(r@[i].interfaces@) == (if bridge_member_name("lo"@, n) {
                    seq!["lo"@]
                } else {
                    Seq::<Seq<char>>::empty()
                })
                &&& r@[i].active == match *connections {
                    Some(o) => bridge_active_in(lines(o@), n),
                    None => false,
                }
                &&& r@[i].datapath_type@ == "system"@
            },
    {
        let mut out: Vec<OVSBridgeState> = Vec::new();
        let mut i: usize = 0;
        while i < bridge_names.len()
            invariant
                i <= bridge_names@.len(),
                out@.len() == nonblank_trimmed(texts(bridge_names@.subrange(0, i as int))).len(),
                forall|k: int| 0 <= k < out@.len() ==> {
                    let n = nonblank_trimmed(texts(bridge_names@.subrange(0, i as int)))[k];
                    &&& (#[trigger] out@[k]).name@ == n
                    &&& out@[k].ports@.len() == 0
                    &&& texts(out@[k].interfaces@) == (if bridge_member_name("lo"@, n) {
                        seq!["lo"@]
                    } else {
                        Seq::<Seq<char>>::empty()
                    })
                    &&& out@[k].active == match *connections {
                        Some(o) => bridge_active_in(lines(o@), n),
                        None => false,
                    }
                    &&& out@[k].datapath_type@ == "system"@
                },
            decreases bridge_names@.len() - i,
        {
            let ghost pre = texts(bridge_names@.subrange(0, i as int));
            let ghost post = texts(bridge_names@.subrange(0, i + 1));
            assert(bridge_names@.subrange(0, i + 1).drop_last() =~= bridge_names@.subrange(0, i as int));
            assert(post.drop_last() =~= pre);
            assert(post.last() == bridge_names@[i as int]@);
            let name = trim_text(bridge_names[i].as_str());
            if !name.as_str().is_empty() {
                let ports = match get_bridge_ports(name.as_str()) {
                    Ok(p) => p,
                    Err(_) => Vec::new(),
                };
                let interfaces = match get_bridge_interfaces(name.as_str()) {
                    Ok(v) => v,
                    Err(_) => Vec::new(),
                };
                let active = match connections {
                    Some(o) => Self::bridge_active(o.as_str(), name.as_str()),
                    None => false,
                };
                out.push(OVSBridgeState { name, ports, interfaces, active, datapath_type: owned("system") });
                proof {
                    assert(nonblank_trimmed(post) == nonblank_trimmed(pre).push(trim(post.last())));
                }
            } else {
                assert(nonblank_trimmed(post) == nonblank_trimmed(pre));
            }
            i = i + 1;
        }
        assert(bridge_names@.subrange(0, bridge_names@.len() as int) =~= bridge_names@);
        out
    }

    /// The connectivity status from the ping of `8.8.8.8`, the DNS check, the output of
    /// `ip route show default` and of `networkctl -t -f DEVICE,STATE device status` (`None`
    /// for a command that failed).
    pub fn connectivity_status(
        &self,
        internet_reachable: bool,
        dns_working: bool,
        route: &Option<String>,
        devices: &Option<String>,
    ) -> (r: ConnectivityStatus)
        ensures
            r.internet_reachable == internet_reachable,
            r.dns_working == dns_working,
            r.default_route@ == trimmed_or_unknown(opt_text(*route)),
            r.uplink_status@ == match *devices {
                Some(d) => uplink_state_in(lines(d@)),
                None => "unknown"@,
            },
    {
        let uplink_status = match devices {
            Some(d) => Self::uplink_status(d.as_str()),
            None => owned("unknown"),
        };
        ConnectivityStatus {
            internet_reachable,
            dns_working,
            default_route: trimmed_or_unknown_exec(route),
            uplink_status,
        }
    }
}

impl Default for NetworkStateService {
    fn default() -> (r: Self) {
        NetworkStateService::new()
    }
}

/// Adds and removes container ports on one bridge, recording them in a ledger.
pub struct PortManagementService {
    pub bridge: String,
    pub ledger_path: String,
}

impl PortManagementService {
    /// A service for `bridge` that records into `ledger_path`.
    pub fn new(bridge: String, ledger_path: String) -> (r: PortManagementService)
        ensures
            r.bridge@ == bridge@,
            r.ledger_path@ == ledger_path@,
    {
        PortManagementService { bridge, ledger_path }
    }

    /// The report of an added port.
    pub fn added_report(name: &str) -> (r: String)
        ensures
            r@ == "Container interface created for "@ + name@,
    {
        let mut m = owned("Container interface created for ");
        push_str(&mut m, name);
        m
    }

    /// The report of a removed port.
    pub fn removed_report(name: &str) -> (r: String)
        ensures
            r@ == "Container interface "@ + name@ + " removed"@,
    {
        let mut m = owned("Container interface ");
        push_str(&mut m, name);
        push_str(&mut m, " removed");
        m
    }
}

} // verus!
