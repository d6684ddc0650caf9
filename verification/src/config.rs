//! Agent configuration: its sections, their defaults, their validation rules and the
//! order in which configuration files are looked for.
use vstd::prelude::*;
use vstd::string::*;
use crate::text::{owned, texts};

verus! {

/// Main configuration.
pub struct Config {
    pub bridge: BridgeConfig,
    pub network_manager: NetworkManagerConfig,
    pub fuse: FuseConfig,
    pub ledger: LedgerConfig,
    pub metrics: MetricsConfig,
    pub logging: LoggingConfig,
}

/// Bridge settings.
pub struct BridgeConfig {
    /// Name of the OVS bridge to manage (1 to 15 characters).
    pub name: String,
    /// Physical uplink interface (at most 15 characters).
    pub uplink: Option<String>,
    /// Bridge datapath type (at most 20 characters).
    pub datapath_type: Option<String>,
    /// Fail mode (at most 10 characters).
    pub fail_mode: Option<String>,
    pub stp_enable: bool,
    pub rstp_enable: bool,
    pub mcast_snooping_enable: bool,
}

/// NetworkManager settings.
pub struct NetworkManagerConfig {
    /// Interfaces file kept for Proxmox (not empty).
    pub interfaces_path: String,
    /// Prefixes of the interfaces taken in as container ports (at least one).
    pub include_prefixes: Vec<String>,
    /// Tag of the managed block in the interfaces file (1 to 50 characters).
    pub managed_block_tag: String,
    /// Naming template for interfaces (1 to 50 characters).
    pub naming_template: String,
    pub enable_rename: bool,
    /// Interfaces NetworkManager must leave alone.
    pub unmanaged_devices: Vec<String>,
    /// Connection timeout in seconds (1 to 300).
    pub connection_timeout: u32,
}

/// FUSE view for Proxmox.
pub struct FuseConfig {
    pub enabled: bool,
    /// Base mount point (not empty).
    pub mount_base: String,
    /// Proxmox API path (not empty).
    pub proxmox_api_base: String,
}

/// Audit ledger settings.
pub struct LedgerConfig {
    pub enabled: bool,
    /// Ledger file (not empty).
    pub path: String,
    /// Maximum size in MB (1 to 10000).
    pub max_size_mb: u32,
    pub compression_enabled: bool,
}

/// Metrics endpoint settings.
pub struct MetricsConfig {
    pub enabled: bool,
    /// Port (1024 to 65535).
    pub port: u16,
    /// Endpoint path (not empty).
    pub path: String,
}

/// Logging settings.
pub struct LoggingConfig {
    /// Log level (not empty).
    pub level: String,
    pub structured: bool,
    pub journald: bool,
}

impl Default for BridgeConfig {
    fn default() -> (r: Self)
        ensures
            r.name@ == "ovsbr0"@,
            r.uplink is None,
            r.datapath_type is None,
            r.fail_mode is None,
            !r.stp_enable,
            !r.rstp_enable,
            r.mcast_snooping_enable,
    {
        BridgeConfig {
            name: owned("ovsbr0"),
            uplink: None,
            datapath_type: None,
            fail_mode: None,
            stp_enable: false,
            rstp_enable: false,
            mcast_snooping_enable: true,
        }
    }
}

impl Default for NetworkManagerConfig {
    fn default() -> (r: Self)
        ensures
            r.interfaces_path@ == "/etc/network/interfaces"@,
            r.include_prefixes@.len() == 2,
            r.include_prefixes@[0]@ == "veth"@,
            r.include_prefixes@[1]@ == "tap"@,
            r.managed_block_tag@ == "ovs-port-agent"@,
            r.naming_template@ == "vi_{container}"@,
            !r.enable_rename,
            r.unmanaged_devices@.len() == 0,
            r.connection_timeout == 45,
    {
        let mut include_prefixes: Vec<String> = Vec::new();
        include_prefixes.push(owned("veth"));
        include_prefixes.push(owned("tap"));
        NetworkManagerConfig {
            interfaces_path: owned("/etc/network/interfaces"),
            include_prefixes,
            managed_block_tag: owned("ovs-port-agent"),
            naming_template: owned("vi_{container}"),
            enable_rename: false,
            unmanaged_devices: Vec::new(),
            connection_timeout: 45,
        }
    }
}

impl Default for FuseConfig {
    fn default() -> (r: Self)
        ensures
            r.enabled,
            r.mount_base@ == "/var/lib/ovs-port-agent/fuse"@,
            r.proxmox_api_base@ == "/var/lib/ovs-port-agent/proxmox"@,
    {
        FuseConfig {
            enabled: true,
            mount_base: owned("/var/lib/ovs-port-agent/fuse"),
            proxmox_api_base: owned("/var/lib/ovs-port-agent/proxmox"),
        }
    }
}

impl Default for LedgerConfig {
    fn default() -> (r: Self)
        ensures
            r.enabled,
            r.path@ == "/var/lib/ovs-port-agent/ledger.jsonl"@,
            r.max_size_mb == 100,
            r.compression_enabled,
    {
        LedgerConfig {
            enabled: true,
            path: owned("/var/lib/ovs-port-agent/ledger.jsonl"),
            max_size_mb: 100,
            compression_enabled: true,
        }
    }
}

impl Default for MetricsConfig {
    fn default() -> (r: Self)
        ensures
            r.enabled,
            r.port == 9090,
            r.path@ == "/metrics"@,
    {
        MetricsConfig { enabled: true, port: 9090, path: owned("/metrics") }
    }
}

impl Default for LoggingConfig {
    fn default() -> (r: Self)
        ensures
            r.level@ == "info"@,
            r.structured,
            r.journald,
    {
        LoggingConfig { level: owned("info"), structured: true, journald: true }
    }
}

/// The default configuration, section by section.
pub open spec fn is_default_config(c: Config) -> bool {
    &&& c.bridge.name@ == "ovsbr0"@
    &&& c.bridge.uplink is None
    &&& c.bridge.datapath_type is None
    &&& c.bridge.fail_mode is None
    &&& !c.bridge.stp_enable
    &&& !c.bridge.rstp_enable
    &&& c.bridge.mcast_snooping_enable
    &&& c.network_manager.interfaces_path@ == "/etc/network/interfaces"@
    &&& c.network_manager.include_prefixes@.len() == 2
    &&& c.network_manager.include_prefixes@[0]@ == "veth"@
    &&& c.network_manager.include_prefixes@[1]@ == "tap"@
    &&& c.network_manager.managed_block_tag@ == "ovs-port-agent"@
    &&& c.network_manager.naming_template@ == "vi_{container}"@
    &&& !c.network_manager.enable_rename
    &&& c.network_manager.unmanaged_devices@.len() == 0
    &&& c.network_manager.connection_timeout == 45
    &&& c.fuse.enabled
    &&& c.fuse.mount_base@ == "/var/lib/ovs-port-agent/fuse"@
    &&& c.fuse.proxmox_api_base@ == "/var/lib/ovs-port-agent/proxmox"@
    &&& c.ledger.enabled
    &&& c.ledger.path@ == "/var/lib/ovs-port-agent/ledger.jsonl"@
    &&& c.ledger.max_size_mb == 100
    &&& c.ledger.compression_enabled
    &&& c.metrics.enabled
    &&& c.metrics.port == 9090
    &&& c.metrics.path@ == "/metrics"@
    &&& c.logging.level@ == "info"@
    &&& c.logging.structured
    &&& c.logging.journald
}

impl Default for Config {
    fn default() -> (r: Self)
        ensures
            is_default_config(r),
    {
        Config {
            bridge: BridgeConfig::default(),
            network_manager: NetworkManagerConfig::default(),
            fuse: FuseConfig::default(),
            ledger: LedgerConfig::default(),
            metrics: MetricsConfig::default(),
            logging: LoggingConfig::default(),
        }
    }
}

/// Length of an optional string in characters (0 when absent).
pub open spec fn opt_len(o: Option<String>) -> nat {
    match o {
        Some(s) => s@.len(),
        None => 0,
    }
}

/// A field check: the field's name when it fails.
pub open spec fn check(bad: bool, field: Seq<char>) -> Seq<Seq<char>> {
    if bad {
        seq![field]
    } else {
        Seq::empty()
    }
}

/// The fields of `c` that break their rule, in declaration order.
pub open spec fn invalid_fields(c: Config) -> Seq<Seq<char>> {
    Seq::empty() + check(!(1 <= c.bridge.name@.len() <= 15), "bridge.name"@)
        + check(opt_len(c.bridge.uplink) > 15, "bridge.uplink"@)
        + check(opt_len(c.bridge.datapath_type) > 20, "bridge.datapath_type"@)
        + check(opt_len(c.bridge.fail_mode) > 10, "bridge.fail_mode"@)
        + check(c.network_manager.interfaces_path@.len() < 1, "network_manager.interfaces_path"@)
        + check(c.network_manager.include_prefixes@.len() < 1, "network_manager.include_prefixes"@)
        + check(!(1 <= c.network_manager.managed_block_tag@.len() <= 50), "network_manager.managed_block_tag"@)
        + check(!(1 <= c.network_manager.naming_template@.len() <= 50), "network_manager.naming_template"@)
        + check(!(1 <= c.network_manager.connection_timeout <= 300), "network_manager.connection_timeout"@)
        + check(c.fuse.mount_base@.len() < 1, "fuse.mount_base"@)
        + check(c.fuse.proxmox_api_base@.len() < 1, "fuse.proxmox_api_base"@)
        + check(c.ledger.path@.len() < 1, "ledger.path"@)
        + check(!(1 <= c.ledger.max_size_mb <= 10000), "ledger.max_size_mb"@)
        + check(c.metrics.port < 1024, "metrics.port"@)
        + check(c.metrics.path@.len() < 1, "metrics.path"@)
        + check(c.logging.level@.len() < 1, "logging.level"@)
}

/// A configuration that keeps every rule: a bridge name of 1 to 15 characters (the kernel's
/// limit on interface names), an uplink of at most 15, a datapath type of at most 20 and a
/// fail mode of at most 10 characters, a non-empty interfaces path and prefix list, a block
/// tag and a naming template of 1 to 50 characters, a connection timeout of 1 to 300
/// seconds, non-empty mount base, API base and ledger path, a ledger size of 1 to 10000 MB,
/// a metrics port from 1024 up, a non-empty metrics path and logging level.
pub open spec fn keeps_every_rule(c: Config) -> bool {
    &&& 1 <= c.bridge.name@.len() <= 15
    &&& (c.bridge.uplink matches Some(u) ==> u@.len() <= 15)
    &&& (c.bridge.datapath_type matches Some(d) ==> d@.len() <= 20)
    &&& (c.bridge.fail_mode matches Some(f) ==> f@.len() <= 10)
    &&& c.network_manager.interfaces_path@.len() >= 1
    &&& c.network_manager.include_prefixes@.len() >= 1
    &&& 1 <= c.network_manager.managed_block_tag@.len() <= 50
    &&& 1 <= c.network_manager.naming_template@.len() <= 50
    &&& 1 <= c.network_manager.connection_timeout <= 300
    &&& c.fuse.mount_base@.len() >= 1
    &&& c.fuse.proxmox_api_base@.len() >= 1
    &&& c.ledger.path@.len() >= 1
    &&& 1 <= c.ledger.max_size_mb <= 10000
    &&& c.metrics.port >= 1024
    &&& c.metrics.path@.len() >= 1
    &&& c.logging.level@.len() >= 1
}

/// Validation reports every broken rule by its field's name, and passes a configuration
/// that keeps every rule: a bridge name that is empty or longer than 15 characters is
/// reported as `bridge.name`, an uplink longer than 15 as `bridge.uplink`, and so on for each
/// rule of `keeps_every_rule`.
#[verifier::spinoff_prover]
#[verifier::rlimit(40)]
pub proof fn law_validation_reports_broken_rules(c: Config)
    ensures
        keeps_every_rule(c) ==> invalid_fields(c).len() == 0,
        !(1 <= c.bridge.name@.len() <= 15) ==> invalid_fields(c).contains("bridge.name"@),
        (c.bridge.uplink matches Some(u) && u@.len() > 15) ==> invalid_fields(c).contains("bridge.uplink"@),
        (c.bridge.datapath_type matches Some(d) && d@.len() > 20) ==> invalid_fields(c).contains("bridge.datapath_type"@),
        (c.bridge.fail_mode matches Some(f) && f@.len() > 10) ==> invalid_fields(c).contains("bridge.fail_mode"@),
        c.network_manager.interfaces_path@.len() == 0 ==> invalid_fields(c).contains("network_manager.interfaces_path"@),
        c.network_manager.include_prefixes@.len() == 0 ==> invalid_fields(c).contains("network_manager.include_prefixes"@),
        !(1 <= c.network_manager.managed_block_tag@.len() <= 50) ==> invalid_fields(c).contains(
            "network_manager.managed_block_tag"@,
        ),
        !(1 <= c.network_manager.naming_template@.len() <= 50) ==> invalid_fields(c).contains(
            "network_manager.naming_template"@,
        ),
        !(1 <= c.network_manager.connection_timeout <= 300) ==> invalid_fields(c).contains(
            "network_manager.connection_timeout"@,
        ),
        c.fuse.mount_base@.len() == 0 ==> invalid_fields(c).contains("fuse.mount_base"@),
        c.fuse.proxmox_api_base@.len() == 0 ==> invalid_fields(c).contains("fuse.proxmox_api_base"@),
        c.ledger.path@.len() == 0 ==> invalid_fields(c).contains("ledger.path"@),
        !(1 <= c.ledger.max_size_mb <= 10000) ==> invalid_fields(c).contains("ledger.max_size_mb"@),
        c.metrics.port < 1024 ==> invalid_fields(c).contains("metrics.port"@),
        c.metrics.path@.len() == 0 ==> invalid_fields(c).contains("metrics.path"@),
        c.logging.level@.len() == 0 ==> invalid_fields(c).contains("logging.level"@),
{
    assert forall|a: Seq<Seq<char>>, b: Seq<Seq<char>>, x: Seq<char>| a.contains(x) implies #[trigger] (a + b).contains(x) by {
        let j = choose|j: int| 0 <= j < a.len() && a[j] == x;
        assert((a + b)[j] == x);
    }
    assert forall|a: Seq<Seq<char>>, bad: bool, f: Seq<char>| bad implies #[trigger] (a + check(bad, f)).contains(f) by {
        assert((a + check(bad, f))[a.len() as int] == f);
    }
}

/// The default configuration passes validation.
pub proof fn law_default_config_valid(c: Config)
    requires
        is_default_config(c),
    ensures
        invalid_fields(c).len() == 0,
{
    reveal_strlit("ovsbr0");
    reveal_strlit("/etc/network/interfaces");
    reveal_strlit("veth");
    reveal_strlit("ovs-port-agent");
    reveal_strlit("vi_{container}");
    reveal_strlit("/var/lib/ovs-port-agent/fuse");
    reveal_strlit("/var/lib/ovs-port-agent/proxmox");
    reveal_strlit("/var/lib/ovs-port-agent/ledger.jsonl");
    reveal_strlit("/metrics");
    reveal_strlit("info");
}

/// The fields that failed validation.
pub struct ValidationErrors {
    pub fields: Vec<String>,
}

fn len_of(s: &String) -> (r: usize)
    ensures
        r == s@.len(),
{
    s.as_str().unicode_len()
}

fn opt_len_of(o: &Option<String>) -> (r: usize)
    ensures
        r == opt_len(*o),
{
    match o {
        Some(s) => len_of(s),
        None => 0,
    }
}

fn note(out: &mut Vec<String>, bad: bool, field: &str)
    ensures
        texts(final(out)@) == texts(old(out)@) + check(bad, field@),
{
    let ghost before = out@;
    if bad {
        out.push(owned(field));
        assert(texts(out@) =~= texts(before) + check(bad, field@));
    } else {
        assert(texts(out@) =~= texts(before) + check(bad, field@));
    }
}

impl Config {
    /// Checks every field rule; on failure, names each failing field.
    pub fn validate(&self) -> (r: Result<(), ValidationErrors>)
        ensures
            r is Ok <==> invalid_fields(*self).len() == 0,
            r matches Err(e) ==> texts(e.fields@) == invalid_fields(*self),
    {
        let mut out: Vec<String> = Vec::new();
        assert(texts(out@) =~= Seq::empty());
        let b = &self.bridge;
        let nm = &self.network_manager;
        let n = len_of(&b.name);
        note(&mut out, !(1 <= n && n <= 15), "bridge.name");
        note(&mut out, opt_len_of(&b.uplink) > 15, "bridge.uplink");
        note(&mut out, opt_len_of(&b.datapath_type) > 20, "bridge.datapath_type");
        note(&mut out, opt_len_of(&b.fail_mode) > 10, "bridge.fail_mode");
        note(&mut out, len_of(&nm.interfaces_path) < 1, "network_manager.interfaces_path");
        note(&mut out, nm.include_prefixes.len() < 1, "network_manager.include_prefixes");
        let t = len_of(&nm.managed_block_tag);
        note(&mut out, !(1 <= t && t <= 50), "network_manager.managed_block_tag");
        let m = len_of(&nm.naming_template);
        note(&mut out, !(1 <= m && m <= 50), "network_manager.naming_template");
        let ct = nm.connection_timeout;
        note(&mut out, !(1 <= ct && ct <= 300), "network_manager.connection_timeout");
        note(&mut out, len_of(&self.fuse.mount_base) < 1, "fuse.mount_base");
        note(&mut out, len_of(&self.fuse.proxmox_api_base) < 1, "fuse.proxmox_api_base");
        note(&mut out, len_of(&self.ledger.path) < 1, "ledger.path");
        let ms = self.ledger.max_size_mb;
        note(&mut out, !(1 <= ms && ms <= 10000), "ledger.max_size_mb");
        note(&mut out, self.metrics.port < 1024, "metrics.port");
        note(&mut out, len_of(&self.metrics.path) < 1, "metrics.path");
        note(&mut out, len_of(&self.logging.level) < 1, "logging.level");
        assert(texts(out@) == invalid_fields(*self));
        if out.len() == 0 {
            Ok(())
        } else {
            Err(ValidationErrors { fields: out })
        }
    }

    /// The bridge name.
    pub fn bridge_name(&self) -> (r: &str)
        ensures
            r@ == self.bridge.name@,
    {
        self.bridge.name.as_str()
    }

    /// The interfaces file path.
    pub fn interfaces_path(&self) -> (r: &str)
        ensures
            r@ == self.network_manager.interfaces_path@,
    {
        self.network_manager.interfaces_path.as_str()
    }

    /// The prefixes of the interfaces taken in as container ports.
    pub fn include_prefixes(&self) -> (r: &[String])
        ensures
            r@ == self.network_manager.include_prefixes@,
    {
        self.network_manager.include_prefixes.as_slice()
    }

    /// The tag of the managed block.
    pub fn managed_block_tag(&self) -> (r: &str)
        ensures
            r@ == self.network_manager.managed_block_tag@,
    {
        self.network_manager.managed_block_tag.as_str()
    }

    /// The interface naming template.
    pub fn naming_template(&self) -> (r: &str)
        ensures
            r@ == self.network_manager.naming_template@,
    {
        self.network_manager.naming_template.as_str()
    }

    /// The ledger file path.
    pub fn ledger_path(&self) -> (r: &str)
        ensures
            r@ == self.ledger.path@,
    {
        self.ledger.path.as_str()
    }

    /// Whether interfaces are renamed.
    pub fn enable_rename(&self) -> (r: bool)
        ensures
            r == self.network_manager.enable_rename,
    {
        self.network_manager.enable_rename
    }

    /// The uplink interface, if any.
    pub fn uplink(&self) -> (r: Option<&str>)
        ensures
            match r {
                Some(u) => self.bridge.uplink matches Some(s) && u@ == s@,
                None => self.bridge.uplink is None,
            },
    {
        match &self.bridge.uplink {
            Some(s) => Some(s.as_str()),
            None => None,
        }
    }

    /// The interfaces NetworkManager must leave alone.
    pub fn nm_unmanaged(&self) -> (r: &[String])
        ensures
            r@ == self.network_manager.unmanaged_devices@,
    {
        self.network_manager.unmanaged_devices.as_slice()
    }
}

/// The files a configuration is looked for in, in order: the given path alone, or else the
/// system file, the project file and the project example.
pub fn config_candidates(path: Option<String>) -> (r: Vec<String>)
    ensures
        match path {
            Some(p) => r@.len() == 1 && r@[0]@ == p@,
            None => texts(r@) == seq![
                "/etc/ovs-port-agent/config.toml"@,
                "config/config.toml"@,
                "config/config.toml.example"@,
            ],
        },
{
    let mut r: Vec<String> = Vec::new();
    match path {
        Some(p) => {
            r.push(p);
        },
        None => {
            r.push(owned("/etc/ovs-port-agent/config.toml"));
            r.push(owned("config/config.toml"));
            r.push(owned("config/config.toml.example"));
            assert(texts(r@) =~= seq![
                "/etc/ovs-port-agent/config.toml"@,
                "config/config.toml"@,
                "config/config.toml.example"@,
            ]);
        },
    }
    r
}

/// Which candidate file a configuration is read from, given whether each candidate exists:
/// the first that exists; none when no candidate exists (the default configuration is used).
pub fn first_existing(exists: &Vec<bool>) -> (r: Option<usize>)
    ensures
        match r {
            Some(i) => i < exists@.len() && exists@[i as int] && forall|j: int| 0 <= j < i ==> !exists@[j],
            None => forall|j: int| 0 <= j < exists@.len() ==> !exists@[j],
        },
{
    let mut i: usize = 0;
    while i < exists.len()
        invariant
            i <= exists@.len(),
            forall|j: int| 0 <= j < i ==> !exists@[j],
        decreases exists@.len() - i,
    {
        if exists[i] {
            return Some(i);
        }
        i = i + 1;
    }
    None
}

} // verus!
