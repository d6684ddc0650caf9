//! Container interfaces: the settings of one, the name it is given, and whether the raw
//! interface has to be renamed to that name.
use vstd::prelude::*;
use crate::text::{owned, same_text};
use crate::naming::{render_template, rendered};
use crate::link::link_exists;

verus! {

/// The settings of a container interface.
pub struct InterfaceConfig {
    pub bridge: String,
    pub raw_ifname: String,
    pub container_id: String,
    pub vmid: u32,
    pub interfaces_path: String,
    pub managed_tag: String,
    pub enable_rename: bool,
    pub naming_template: String,
    pub ledger_path: String,
}

impl InterfaceConfig {
    /// The settings of an interface on `bridge`, renamed by the template `vi_{container}`,
    /// listed in `/etc/network/interfaces` under the tag `ovs-port-agent`, and logged to
    /// `/var/lib/ovs-port-agent/ledger.jsonl`.
    pub fn new(bridge: String, raw_ifname: String, container_id: String, vmid: u32) -> (r: InterfaceConfig)
        ensures
            r.bridge == bridge,
            r.raw_ifname == raw_ifname,
            r.container_id == container_id,
            r.vmid == vmid,
            r.interfaces_path@ == "/etc/network/interfaces"@,
            r.managed_tag@ == "ovs-port-agent"@,
            r.enable_rename,
            r.naming_template@ == "vi_{container}"@,
            r.ledger_path@ == "/var/lib/ovs-port-agent/ledger.jsonl"@,
    {
        InterfaceConfig {
            bridge,
            raw_ifname,
            container_id,
            vmid,
            interfaces_path: owned("/etc/network/interfaces"),
            managed_tag: owned("ovs-port-agent"),
            enable_rename: true,
            naming_template: owned("vi_{container}"),
            ledger_path: owned("/var/lib/ovs-port-agent/ledger.jsonl"),
        }
    }

    /// The same settings with another interfaces file.
    pub fn with_interfaces_path(self, path: String) -> (r: InterfaceConfig)
        ensures
            r == (InterfaceConfig { interfaces_path: path, ..self }),
    {
        InterfaceConfig { interfaces_path: path, ..self }
    }

    /// The same settings with another managed tag.
    pub fn with_managed_tag(self, tag: String) -> (r: InterfaceConfig)
        ensures
            r == (InterfaceConfig { managed_tag: tag, ..self }),
    {
        InterfaceConfig { managed_tag: tag, ..self }
    }

    /// The same settings with renaming switched on or off.
    pub fn with_enable_rename(self, enable: bool) -> (r: InterfaceConfig)
        ensures
            r == (InterfaceConfig { enable_rename: enable, ..self }),
    {
        InterfaceConfig { enable_rename: enable, ..self }
    }

    /// The same settings with another naming template.
    pub fn with_naming_template(self, template: String) -> (r: InterfaceConfig)
        ensures
            r == (InterfaceConfig { naming_template: template, ..self }),
    {
        InterfaceConfig { naming_template: template, ..self }
    }

    /// The same settings with another ledger file.
    pub fn with_ledger_path(self, path: String) -> (r: InterfaceConfig)
        ensures
            r == (InterfaceConfig { ledger_path: path, ..self }),
    {
        InterfaceConfig { ledger_path: path, ..self }
    }
}

/// The name a container interface gets: the template rendered for the container when
/// renaming is on, else the raw name.
pub open spec fn target_name(c: InterfaceConfig) -> Seq<char> {
    if c.enable_rename {
        rendered(c.naming_template@, c.container_id@, 0)
    } else {
        c.raw_ifname@
    }
}

/// What creating a container interface does before its logs, binding and interfaces
/// entry: the name it gets, and whether the raw interface is renamed to it.
pub struct ContainerInterfacePlan {
    pub target: String,
    pub rename: bool,
}

/// The plan for a container interface, given whether a link with the target name already
/// exists: the target name, and a rename only with renaming on, when the names differ and
/// no link has the target name yet.
pub fn plan_with_links(config: &InterfaceConfig, target_exists: bool) -> (r: ContainerInterfacePlan)
    ensures
        r.target@ == target_name(*config),
        r.rename == (config.enable_rename && config.raw_ifname@ != r.target@ && !target_exists),
{
    let target = if config.enable_rename {
        render_template(config.naming_template.as_str(), config.container_id.as_str(), 0)
    } else {
        config.raw_ifname.clone()
    };
    let rename = config.enable_rename && !same_text(config.raw_ifname.as_str(), target.as_str()) && !target_exists;
    ContainerInterfacePlan { target, rename }
}

/// Works out the name of a container interface and whether to rename the raw interface,
/// asking the kernel whether a link with the target name exists (see `plan_with_links`).
pub fn plan_container_interface(config: &InterfaceConfig) -> (r: ContainerInterfacePlan)
    ensures
        r.target@ == target_name(*config),
        r.rename ==> config.enable_rename && config.raw_ifname@ != r.target@,
        !(config.enable_rename && config.raw_ifname@ != r.target@) ==> !r.rename,
{
    let first = plan_with_links(config, false);
    if first.rename {
        let exists = link_exists(first.target.as_str());
        plan_with_links(config, exists)
    } else {
        first
    }
}

} // verus!
