//! Network management library for OVS bridges, container ports and an audit ledger.
pub mod text;
pub mod digest;
pub mod ledger;
pub mod config;
pub mod naming;
pub mod link;
pub mod interfaces;
pub mod error;
pub mod metrics;
pub mod json;
pub mod fuse;
pub mod ovs_flows;
pub mod lines;
pub mod nm_bridge;
pub mod systemd_net;
pub mod nm_controller;
pub mod nmcli_dyn;
pub mod services;
pub mod netconf;
pub mod docker;
pub mod netmaker;
pub mod networkd;
pub mod snapshot;
pub mod bridge_manager;
pub mod atomic_setup;
pub mod ovsdb_wrapper;
pub mod ovsdb_fuse;
pub mod keyed;
pub mod state;
pub mod net_apply;
pub mod plugins;
pub mod netlink;
pub mod netcfg;
pub mod ovsdb_cache;
pub mod plan_run;
